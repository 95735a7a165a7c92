//! The player status snapshot the display renders, and the small layout
//! decisions derived from it: the filled width of the seek bar and the
//! marquee scroll step of an over-wide text strip.

use vstd::prelude::*;

verus! {

/// One snapshot of the player state, as the status feed reports it. The
/// display compares consecutive snapshots field by field to decide what
/// to redraw.
pub struct Info {
    /// Playback state, such as "play" or "stop".
    pub status: String,
    /// Track title.
    pub title: String,
    /// Album name.
    pub album: String,
    /// Artist name.
    pub artist: String,
    /// Cover art location: a URL or a path.
    pub albumart: String,
    /// Sample rate as reported, for example "44.1 kHz".
    pub samplerate: String,
    /// Bit depth as reported, for example "16 bit".
    pub bitdepth: String,
    /// Channel count.
    pub channels: u32,
    /// Playback position in milliseconds.
    pub seek: u32,
    /// Track duration in seconds.
    pub duration: u32,
}

impl Info {
    /// An empty snapshot: every text field empty, every number zero.
    pub fn new() -> (r: Info)
        ensures
            r.status@ == Seq::<char>::empty(),
            r.title@ == Seq::<char>::empty(),
            r.album@ == Seq::<char>::empty(),
            r.artist@ == Seq::<char>::empty(),
            r.albumart@ == Seq::<char>::empty(),
            r.samplerate@ == Seq::<char>::empty(),
            r.bitdepth@ == Seq::<char>::empty(),
            r.channels == 0,
            r.seek == 0,
            r.duration == 0,
    {
        Info {
            status: String::new(),
            title: String::new(),
            album: String::new(),
            artist: String::new(),
            albumart: String::new(),
            samplerate: String::new(),
            bitdepth: String::new(),
            channels: 0,
            seek: 0,
            duration: 0,
        }
    }
}

impl Default for Info {
    /// The empty snapshot.
    fn default() -> (r: Self)
        ensures
            r.status@ == Seq::<char>::empty(),
            r.title@ == Seq::<char>::empty(),
            r.album@ == Seq::<char>::empty(),
            r.artist@ == Seq::<char>::empty(),
            r.albumart@ == Seq::<char>::empty(),
            r.samplerate@ == Seq::<char>::empty(),
            r.bitdepth@ == Seq::<char>::empty(),
            r.channels == 0,
            r.seek == 0,
            r.duration == 0,
    {
        Info::new()
    }
}

/// The filled width of the seek bar for a playback position `seek` (in
/// milliseconds) inside a track of `duration` seconds: the bar width
/// scaled by the played fraction, zero when the duration is unknown.
pub open spec fn seek_pos_spec(seek: int, duration: int, bar_width: int) -> int {
    if duration > 0 {
        bar_width * seek / (duration * 1000)
    } else {
        0
    }
}

/// Compute the filled width of the seek bar.
pub fn seek_bar_pos(seek: u32, duration: u32, bar_width: u32) -> (r: u64)
    ensures
        r as int == seek_pos_spec(seek as int, duration as int, bar_width as int),
{
    if duration > 0 {
        proof {
            assert((bar_width as int) * (seek as int) <= 0xFFFF_FFFF * 0xFFFF_FFFF) by (
            nonlinear_arith)
                requires
                    0 <= bar_width <= 0xFFFF_FFFF,
                    0 <= seek <= 0xFFFF_FFFF,
            ;
        }
        ((bar_width as u64) * (seek as u64)) / ((duration as u64) * 1000)
    } else {
        0
    }
}

/// One marquee step for a text strip of width `img_w` scrolled through a
/// viewport of width `area_w`, currently at position `x`: the next
/// position, and whether the strip has finished its pass. A strip that
/// fits the viewport never scrolls and is always finished.
pub open spec fn scroll_next_spec(x: int, img_w: int, area_w: int) -> int {
    if img_w > area_w && x < img_w - area_w {
        x + 1
    } else {
        x
    }
}

/// Whether the strip has finished its pass at position `x`.
pub open spec fn scroll_done_spec(x: int, img_w: int, area_w: int) -> bool {
    !(img_w > area_w && x < img_w - area_w)
}

/// Advance the marquee scroll of one text strip.
pub fn scroll_step(x: u32, img_w: u32, area_w: u32) -> (r: (u32, bool))
    ensures
        r.0 as int == scroll_next_spec(x as int, img_w as int, area_w as int),
        r.1 == scroll_done_spec(x as int, img_w as int, area_w as int),
{
    if img_w > area_w && x < img_w - area_w {
        (x + 1, false)
    } else {
        (x, true)
    }
}

} // verus!

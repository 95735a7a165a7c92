//! The player snapshot and the layout helpers around it.

use st7789volumio::info::{seek_bar_pos, scroll_step, Info};

#[test]
fn empty_snapshot() {
    let i = Info::new();
    assert_eq!(i.status, "");
    assert_eq!(i.title, "");
    assert_eq!(i.albumart, "");
    assert_eq!(i.channels, 0);
    assert_eq!(i.seek, 0);
    assert_eq!(i.duration, 0);
    let d = Info::default();
    assert_eq!(d.artist, "");
    assert_eq!(d.duration, 0);
}

#[test]
fn seek_bar_scales_by_played_fraction() {
    // Half of a one-minute track on a 232-pixel bar.
    assert_eq!(seek_bar_pos(30_000, 60, 232), 116);
    // At the start and at the end.
    assert_eq!(seek_bar_pos(0, 60, 232), 0);
    assert_eq!(seek_bar_pos(60_000, 60, 232), 232);
    // An unknown duration leaves the bar empty.
    assert_eq!(seek_bar_pos(30_000, 0, 232), 0);
}

#[test]
fn scroll_advances_only_over_wide_strips() {
    // A strip narrower than the viewport never scrolls.
    assert_eq!(scroll_step(0, 100, 232), (0, true));
    // A wide strip advances one pixel per step until its end is visible.
    assert_eq!(scroll_step(0, 300, 232), (1, false));
    assert_eq!(scroll_step(67, 300, 232), (68, false));
    assert_eq!(scroll_step(68, 300, 232), (68, true));
}

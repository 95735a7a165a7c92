//! The two transport variants over a recorded raw bus: mode-line
//! discipline, error propagation, and the manual chip-select guarantee.

use st7789volumio::control::{DisplayError, WriteOnlyDataCommand};
use st7789volumio::control::{SPIInterfaceAutoCS, SPIInterfaceManualCS};
use st7789volumio::sim::{SimBus, SimLine, SimRec};

#[test]
fn auto_cs_sets_mode_line_per_operation() {
    let mut di = SPIInterfaceAutoCS::new(SimBus::new(), SimLine::new());
    di.send_command(0x2a).unwrap();
    assert!(!di.dc_ref().is_high(), "mode line must be low for a command");
    di.send_data(&[1, 2, 3]).unwrap();
    assert!(di.dc_ref().is_high(), "mode line must be high for data");
    let bus = di.bus_ref();
    assert_eq!(bus.rec_len(), 2);
    assert!(matches!(bus.rec_at(0), SimRec::Write(w) if w.as_slice() == [0x2a]));
    assert!(matches!(bus.rec_at(1), SimRec::Write(w) if w.as_slice() == [1, 2, 3]));
}

#[test]
fn auto_cs_relays_delays() {
    let mut di = SPIInterfaceAutoCS::new(SimBus::new(), SimLine::new());
    di.delay_ms(200);
    assert!(matches!(di.bus_ref().rec_at(0), SimRec::Delay(200)));
}

#[test]
fn auto_cs_propagates_write_failure() {
    let mut di = SPIInterfaceAutoCS::new(SimBus::new_failing_after(1), SimLine::new());
    assert_eq!(di.send_command(0x01), Ok(()));
    assert_eq!(di.send_data(&[5]), Err(DisplayError::BusWriteError));
    // The failed transfer left no record.
    assert_eq!(di.bus_ref().rec_len(), 1);
}

#[test]
fn manual_cs_releases_select_after_success() {
    let mut di = SPIInterfaceManualCS::new(SimBus::new(), SimLine::new(), SimLine::new());
    di.send_command(0x11).unwrap();
    assert!(di.cs_ref().is_high(), "select must be released after a command");
    di.send_data(&[9, 8]).unwrap();
    assert!(di.cs_ref().is_high(), "select must be released after data");
    assert_eq!(di.inner_ref().bus_ref().rec_len(), 2);
}

#[test]
fn manual_cs_releases_select_after_failure() {
    let mut di = SPIInterfaceManualCS::new(
        SimBus::new_failing_after(0),
        SimLine::new(),
        SimLine::new(),
    );
    assert_eq!(di.send_command(0x11), Err(DisplayError::BusWriteError));
    assert!(
        di.cs_ref().is_high(),
        "select must be released even when the inner transfer fails"
    );
    assert_eq!(di.send_data(&[1]), Err(DisplayError::BusWriteError));
    assert!(di.cs_ref().is_high());
}

//! Verified in-memory implementations of the transport traits.
//!
//! They record the traffic instead of touching hardware, so the protocol
//! layer can be exercised and inspected without a panel attached. A write
//! budget makes failing buses reproducible: once the budget is spent, every
//! further transfer fails with [`DisplayError::BusWriteError`].

use vstd::prelude::*;

use crate::control::BusRec;
use crate::control::DisplayError;
use crate::control::OutputLine;
use crate::control::RawBus;
use crate::control::RawRec;
use crate::control::WriteOnlyDataCommand;

verus! {

/// An output line that only remembers its state.
pub struct SimLine {
    high: bool,
}

impl SimLine {
    /// A line initially driven high (the released state of an active-low
    /// signal).
    pub fn new() -> (r: Self)
        ensures
            r.is_set_high(),
    {
        Self { high: true }
    }

    /// The current state of the line.
    pub fn is_high(&self) -> (r: bool)
        ensures
            r == self.is_set_high(),
    {
        self.high
    }
}

impl OutputLine for SimLine {
    closed spec fn is_set_high(&self) -> bool {
        self.high
    }

    fn set_high(&mut self) {
        self.high = true;
    }

    fn set_low(&mut self) {
        self.high = false;
    }
}

/// One recorded raw bus operation.
pub enum SimRec {
    /// One transfer of the given bytes.
    Write(Vec<u8>),
    /// A delay of the given number of milliseconds.
    Delay(u32),
}

/// The abstraction of a recorded raw operation.
pub open spec fn raw_rec_view(r: SimRec) -> RawRec {
    match r {
        SimRec::Write(v) => RawRec::Write(v@),
        SimRec::Delay(ms) => RawRec::Delay(ms),
    }
}

/// A raw bus that appends every operation to an in-memory record.
pub struct SimBus {
    recs: Vec<SimRec>,
    ok_budget: Option<u32>,
}

impl SimBus {
    /// A bus on which every transfer succeeds.
    pub fn new() -> (r: Self)
        ensures
            r.ops() == Seq::<RawRec>::empty(),
    {
        Self { recs: Vec::new(), ok_budget: None }
    }

    /// A bus on which only the next `budget` transfers succeed; after that
    /// every transfer fails with [`DisplayError::BusWriteError`]. Delays
    /// always succeed.
    pub fn new_failing_after(budget: u32) -> (r: Self)
        ensures
            r.ops() == Seq::<RawRec>::empty(),
    {
        Self { recs: Vec::new(), ok_budget: Some(budget) }
    }

    /// How many operations were recorded.
    pub fn rec_len(&self) -> (n: usize)
        ensures
            n == self.ops().len(),
    {
        self.recs.len()
    }

    /// The `i`-th recorded operation, oldest first.
    pub fn rec_at(&self, i: usize) -> (r: &SimRec)
        requires
            i < self.ops().len(),
        ensures
            raw_rec_view(*r) == self.ops()[i as int],
    {
        &self.recs[i]
    }
}

impl RawBus for SimBus {
    closed spec fn ops(&self) -> Seq<RawRec> {
        self.recs@.map_values(|r: SimRec| raw_rec_view(r))
    }

    fn write(&mut self, data: &[u8]) -> (r: Result<(), DisplayError>) {
        match self.ok_budget {
            Some(0) => Err(DisplayError::BusWriteError),
            Some(n) => {
                self.ok_budget = Some(n - 1);
                self.recs.push(SimRec::Write(vstd::slice::slice_to_vec(data)));
                proof {
                    assert(self.ops() =~= old(self).ops().push(RawRec::Write(data@)));
                }
                Ok(())
            },
            None => {
                self.recs.push(SimRec::Write(vstd::slice::slice_to_vec(data)));
                proof {
                    assert(self.ops() =~= old(self).ops().push(RawRec::Write(data@)));
                }
                Ok(())
            },
        }
    }

    fn delay_ms(&mut self, ms: u32) {
        self.recs.push(SimRec::Delay(ms));
        proof {
            assert(self.ops() =~= old(self).ops().push(RawRec::Delay(ms)));
        }
    }
}

/// One recorded panel transport operation.
pub enum PanelRec {
    /// One command byte.
    Cmd(u8),
    /// One data payload.
    Data(Vec<u8>),
    /// A delay of the given number of milliseconds.
    Delay(u32),
}

/// The abstraction of a recorded panel transport operation.
pub open spec fn panel_rec_view(r: PanelRec) -> BusRec {
    match r {
        PanelRec::Cmd(c) => BusRec::Cmd(c),
        PanelRec::Data(v) => BusRec::Data(v@),
        PanelRec::Delay(ms) => BusRec::Delay(ms),
    }
}

/// A panel transport that appends every operation to an in-memory record.
pub struct SimPanelBus {
    recs: Vec<PanelRec>,
    ok_budget: Option<u32>,
}

impl SimPanelBus {
    /// A transport on which every send succeeds.
    pub fn new() -> (r: Self)
        ensures
            r.log() == Seq::<BusRec>::empty(),
    {
        Self { recs: Vec::new(), ok_budget: None }
    }

    /// A transport on which only the next `budget` sends succeed; after
    /// that every send fails with [`DisplayError::BusWriteError`]. Delays
    /// always succeed.
    pub fn new_failing_after(budget: u32) -> (r: Self)
        ensures
            r.log() == Seq::<BusRec>::empty(),
    {
        Self { recs: Vec::new(), ok_budget: Some(budget) }
    }

    /// How many operations were recorded.
    pub fn rec_len(&self) -> (n: usize)
        ensures
            n == self.log().len(),
    {
        self.recs.len()
    }

    /// The `i`-th recorded operation, oldest first.
    pub fn rec_at(&self, i: usize) -> (r: &PanelRec)
        requires
            i < self.log().len(),
        ensures
            panel_rec_view(*r) == self.log()[i as int],
    {
        &self.recs[i]
    }

    fn spend_budget(&mut self) -> (ok: bool)
        ensures
            final(self).recs@ == old(self).recs@,
    {
        match self.ok_budget {
            Some(0) => false,
            Some(n) => {
                self.ok_budget = Some(n - 1);
                true
            },
            None => true,
        }
    }
}

impl WriteOnlyDataCommand for SimPanelBus {
    closed spec fn log(&self) -> Seq<BusRec> {
        self.recs@.map_values(|r: PanelRec| panel_rec_view(r))
    }

    fn send_command(&mut self, cmd: u8) -> (r: Result<(), DisplayError>) {
        if self.spend_budget() {
            self.recs.push(PanelRec::Cmd(cmd));
            proof {
                assert(self.log() =~= old(self).log().push(BusRec::Cmd(cmd)));
            }
            Ok(())
        } else {
            Err(DisplayError::BusWriteError)
        }
    }

    fn send_data(&mut self, data: &[u8]) -> (r: Result<(), DisplayError>) {
        if self.spend_budget() {
            self.recs.push(PanelRec::Data(vstd::slice::slice_to_vec(data)));
            proof {
                assert(self.log() =~= old(self).log().push(BusRec::Data(data@)));
            }
            Ok(())
        } else {
            Err(DisplayError::BusWriteError)
        }
    }

    fn delay_ms(&mut self, ms: u32) {
        self.recs.push(PanelRec::Delay(ms));
        proof {
            assert(self.log() =~= old(self).log().push(BusRec::Delay(ms)));
        }
    }
}

} // verus!

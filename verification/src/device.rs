use vstd::prelude::*;

verus! {

/// The largest setpoint the actuator accepts.
pub const SETPOINT_MAX: u8 = 100;

/// The cached actuator setpoint. It starts at 0 and only ever holds a value
/// that passed the range check of [`DeviceState::store`].
#[derive(Clone, Copy, Debug, PartialEq, Eq)]
pub struct DeviceState {
    setpoint: u8,
}

impl View for DeviceState {
    type V = u8;

    closed spec fn view(&self) -> u8 {
        self.setpoint
    }
}

impl DeviceState {
    /// The cached setpoint lies in its domain.
    pub open spec fn wf(&self) -> bool {
        self@ <= SETPOINT_MAX
    }

    /// The state at process start: setpoint 0.
    pub fn new() -> (state: Self)
        ensures
            state@ == 0,
            state.wf(),
    {
        DeviceState { setpoint: 0 }
    }

    /// The cached setpoint.
    pub fn setpoint(&self) -> (value: u8)
        ensures
            value == self@,
    {
        self.setpoint
    }

    /// Range-checks `value` and, only if it passes, narrows and stores it.
    /// Returns whether the value was stored; a rejected value leaves the
    /// state as it was.
    pub fn store(&mut self, value: u32) -> (stored: bool)
        ensures
            stored == (value <= SETPOINT_MAX),
            stored ==> final(self)@ == value,
            !stored ==> final(self)@ == old(self)@,
            old(self).wf() ==> final(self).wf(),
    {
        if value <= 100 {
            self.setpoint = value as u8;
            true
        } else {
            false
        }
    }
}

} // verus!

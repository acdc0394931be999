use vstd::prelude::*;

verus! {

/// The single process-wide record of the overlay's interaction mode.
///
/// `click_through_enabled` says whether the overlay currently lets mouse
/// input pass through to whatever lies beneath it; `tracking_enabled` says
/// whether the cursor polling loop should sample and forward the global
/// cursor position. The controller keeps the two coupled: tracking is on
/// exactly while click-through is on. The shell shares one instance between
/// its command handlers and the polling thread under a single guard, and
/// every mutation goes through the operations below, each of which touches
/// the pair in one step so readers never observe it torn.
#[derive(Clone, Copy, PartialEq, Eq, Structural, Debug)]
pub struct OverlayState {
    pub click_through_enabled: bool,
    pub tracking_enabled: bool,
}

impl OverlayState {
    /// The record is well formed when tracking mirrors click-through.
    pub open spec fn wf(self) -> bool {
        self.tracking_enabled == self.click_through_enabled
    }

    /// Initial state: the overlay starts in click-through mode, tracking on.
    pub fn new() -> (s: Self)
        ensures
            s == (OverlayState { click_through_enabled: true, tracking_enabled: true }),
            s.wf(),
    {
        OverlayState { click_through_enabled: true, tracking_enabled: true }
    }

    /// Snapshot of both flags taken together.
    pub fn get(&self) -> (r: (bool, bool))
        ensures
            r.0 == self.click_through_enabled,
            r.1 == self.tracking_enabled,
    {
        (self.click_through_enabled, self.tracking_enabled)
    }

    /// Read-modify-write step: installs `new_value` on both coupled flags and
    /// reports true only when the current click-through flag equals
    /// `expected`; otherwise leaves the record untouched and reports false.
    pub fn compare_and_set_click_through(&mut self, expected: bool, new_value: bool) -> (changed: bool)
        ensures
            changed == (old(self).click_through_enabled == expected),
            changed ==> *final(self) == (OverlayState {
                click_through_enabled: new_value,
                tracking_enabled: new_value,
            }),
            !changed ==> *final(self) == *old(self),
    {
        if self.click_through_enabled == expected {
            self.click_through_enabled = new_value;
            self.tracking_enabled = new_value;
            true
        } else {
            false
        }
    }

    /// Flips click-through together with the coupled tracking flag in one
    /// step and returns the new value.
    pub fn toggle(&mut self) -> (now: bool)
        ensures
            now == !old(self).click_through_enabled,
            final(self).click_through_enabled == now,
            final(self).tracking_enabled == now,
            final(self).wf(),
    {
        let now = !self.click_through_enabled;
        self.click_through_enabled = now;
        self.tracking_enabled = now;
        now
    }
}

} // verus!

use vstd::prelude::*;

verus! {

/// Supported layout languages.
#[derive(Clone, Copy, Debug, PartialEq, Eq, Structural)]
pub enum Language {
    English,
    Hebrew,
}

/// Abstract state of an [`AppControl`]: whether correction is enabled and how
/// many words have been fixed so far.
pub struct ControlView {
    pub enabled: bool,
    pub fixed_count: u64,
}

/// Runtime state shared between the keyboard listener and the user interface.
pub struct AppControl {
    enabled: bool,
    fixed_count: u64,
}

impl View for AppControl {
    type V = ControlView;

    closed spec fn view(&self) -> ControlView {
        ControlView { enabled: self.enabled, fixed_count: self.fixed_count }
    }
}

/// The successor of a counter that wraps around at `u64::MAX`.
pub open spec fn wrapping_successor(n: u64) -> u64 {
    if n == u64::MAX {
        0
    } else {
        (n + 1) as u64
    }
}

impl AppControl {
    /// Correction starts enabled, with no word fixed yet.
    pub fn new() -> (r: Self)
        ensures
            r@.enabled,
            r@.fixed_count == 0,
    {
        AppControl { enabled: true, fixed_count: 0 }
    }

    pub fn is_enabled(&self) -> (r: bool)
        ensures
            r == self@.enabled,
    {
        self.enabled
    }

    pub fn set_enabled(&mut self, value: bool)
        ensures
            final(self)@.enabled == value,
            final(self)@.fixed_count == old(self)@.fixed_count,
    {
        self.enabled = value;
    }

    pub fn fixed_count(&self) -> (r: u64)
        ensures
            r == self@.fixed_count,
    {
        self.fixed_count
    }

    /// Counts one more fixed word; the counter wraps around like an atomic
    /// `fetch_add`.
    pub fn record_fix(&mut self)
        ensures
            final(self)@.fixed_count == wrapping_successor(old(self)@.fixed_count),
            final(self)@.enabled == old(self)@.enabled,
    {
        self.fixed_count = self.fixed_count.wrapping_add(1);
    }
}

} // verus!

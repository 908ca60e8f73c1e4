//! Holding requests back for a while.
use vstd::prelude::*;

verus! {

/// Whether requests are held back.
#[derive(Debug)]
pub struct PauseController {
    paused: bool,
}

impl View for PauseController {
    type V = bool;

    closed spec fn view(&self) -> bool {
        self.paused
    }
}

impl Default for PauseController {
    fn default() -> (r: PauseController)
        ensures
            !r@,
    {
        PauseController { paused: false }
    }
}

impl PauseController {
    /// Holds requests back from now on.
    pub fn pause(&mut self)
        ensures
            final(self)@,
    {
        self.paused = true;
    }

    /// Lets requests through again.
    pub fn resume(&mut self)
        ensures
            !final(self)@,
    {
        self.paused = false;
    }

    /// Whether requests are held back.
    pub fn is_paused(&self) -> (r: bool)
        ensures
            r == self@,
    {
        self.paused
    }
}

} // verus!

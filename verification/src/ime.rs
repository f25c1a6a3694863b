use vstd::prelude::*;

verus! {

/// One reading of the input method attached to the focused window.
///
/// The engine only ever restores the target (English) mode; the closed set
/// of variants keeps the hysteresis and self-clear comparisons exhaustive.
#[derive(Debug, Clone, Copy, PartialEq, Eq, Structural)]
pub enum ImeStatus {
    /// The designated target mode the engine tries to restore.
    English,
    /// The native (non-target) mode the user types in otherwise.
    Original,
    /// The mode could not be read; treated as "not target" for switch
    /// eligibility, but never as evidence of a deliberate manual switch.
    Unknown,
}

impl ImeStatus {
    /// A reading that makes the window eligible for an automatic switch:
    /// anything not already known to be the target mode.
    pub open spec fn spec_non_target(self) -> bool {
        self == ImeStatus::Original || self == ImeStatus::Unknown
    }

    /// Executable form of [`Self::spec_non_target`].
    pub fn non_target(self) -> (r: bool)
        ensures
            r == self.spec_non_target(),
    {
        match self {
            ImeStatus::English => false,
            ImeStatus::Original => true,
            ImeStatus::Unknown => true,
        }
    }
}

/// The next move while trying to restore the target mode.
#[derive(Debug, Clone, Copy, PartialEq, Eq, Structural)]
pub enum SwitchStep {
    /// Press the toggle key, wait briefly, and read the mode again.
    Toggle,
    /// Stop: the target mode is in place. The payload says whether any
    /// toggle was pressed on the way.
    Done(bool),
    /// Stop: toggles were pressed but the target mode was never observed.
    GiveUp,
}

/// Drives the bounded retry around the mode toggle: the caller reads the
/// mode, hands each reading in, and performs the step it gets back. At most
/// [`SwitchController::RETRY_BUDGET`] toggles are ever requested, so the
/// exchange always ends.
#[derive(Debug, Clone, Copy)]
pub struct SwitchController {
    pub rounds_left: u8,
    pub toggled: bool,
}

impl SwitchController {
    /// How many toggles may be pressed before giving up.
    pub const RETRY_BUDGET: u8 = 3;

    /// A fresh exchange: full budget, nothing pressed yet.
    pub fn new() -> (r: SwitchController)
        ensures
            r.rounds_left == SwitchController::RETRY_BUDGET,
            !r.toggled,
    {
        SwitchController { rounds_left: SwitchController::RETRY_BUDGET, toggled: false }
    }

    /// Digests one mode reading: the target mode ends the exchange at once;
    /// otherwise a toggle is requested while budget remains, and when none
    /// does, the exchange ends — a failure if toggles were pressed in vain,
    /// a plain "nothing to do" if none ever was.
    pub fn observe(&mut self, status: ImeStatus) -> (step: SwitchStep)
        ensures
            status == ImeStatus::English ==> step == SwitchStep::Done(old(self).toggled)
                && *final(self) == *old(self),
            status != ImeStatus::English && old(self).rounds_left > 0 ==> step
                == SwitchStep::Toggle && final(self).rounds_left == old(self).rounds_left - 1
                && final(self).toggled,
            status != ImeStatus::English && old(self).rounds_left == 0 && old(self).toggled
                ==> step == SwitchStep::GiveUp && *final(self) == *old(self),
            status != ImeStatus::English && old(self).rounds_left == 0 && !old(self).toggled
                ==> step == SwitchStep::Done(false) && *final(self) == *old(self),
    {
        match status {
            ImeStatus::English => SwitchStep::Done(self.toggled),
            ImeStatus::Original | ImeStatus::Unknown => {
                if self.rounds_left > 0 {
                    self.rounds_left = self.rounds_left - 1;
                    self.toggled = true;
                    SwitchStep::Toggle
                } else if self.toggled {
                    SwitchStep::GiveUp
                } else {
                    SwitchStep::Done(false)
                }
            },
        }
    }
}

} // verus!

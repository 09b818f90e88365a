//! The execution framework: the mode a deployment runs in and the
//! switcher that moves between modes.

use vstd::prelude::*;

verus! {

/// The mode a deployment runs in.
#[derive(Debug, Clone, Copy, PartialEq, Eq, Structural)]
pub enum ExecutionMode {
    /// Historical backtesting with replay.
    Backtest,
    /// Paper trading with live data.
    Paper,
    /// Live trading with real money.
    Live,
}

impl ExecutionMode {
    /// The mode's name, in capitals, for logs and banners.
    pub fn label(&self) -> (r: &'static str)
        ensures
            *self is Backtest ==> r@ == "BACKTEST"@,
            *self is Paper ==> r@ == "PAPER"@,
            *self is Live ==> r@ == "LIVE"@,
    {
        match self {
            ExecutionMode::Backtest => "BACKTEST",
            ExecutionMode::Paper => "PAPER",
            ExecutionMode::Live => "LIVE",
        }
    }
}

/// Switches between execution modes, remembering the current one.
#[derive(Debug, Copy, Clone)]
pub struct ModeSwitcher {
    /// The mode currently in force.
    pub current_mode: ExecutionMode,
}

impl ModeSwitcher {
    /// A switcher starting in `mode`.
    pub fn new(mode: ExecutionMode) -> (r: Self)
        ensures
            r.current_mode == mode,
    {
        ModeSwitcher { current_mode: mode }
    }

    /// Moves to `new_mode`.
    pub fn switch_mode(&mut self, new_mode: ExecutionMode)
        ensures
            final(self).current_mode == new_mode,
    {
        self.current_mode = new_mode;
    }

    /// The mode currently in force.
    pub fn current_mode(&self) -> (r: ExecutionMode)
        ensures
            r == self.current_mode,
    {
        self.current_mode
    }
}

} // verus!

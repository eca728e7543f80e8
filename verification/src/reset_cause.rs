//! Why the RP2040 last came up.
//!
//! A fan controller that reboots on its own looks identical from the outside to one that was
//! power cycled, and the two want completely different fixes. The chip records the answer across
//! the reset.

use vstd::prelude::*;

verus! {

#[derive(Debug, Clone, Copy, PartialEq, Eq, Structural)]
pub enum ResetCause {
    /// The supply dropped below the brown-out threshold, or power was applied.
    PowerOnOrBrownOut,
    /// The RUN pin was pulled low, which is the reset button and the probe's reset line.
    RunPin,
    /// The watchdog was not fed in time.
    WatchdogTimeout,
    /// Something asked for the reset deliberately, a debugger or `probe-rs run`.
    Forced,
    /// The power-on state machine restarted without any of the above, which is what a debugger
    /// attaching usually looks like.
    DebuggerRestart,
    /// None of the bits were set. Documented as the plain hardware reset case.
    Unknown,
}

/// The text published for each cause.
pub open spec fn reset_cause_text(cause: ResetCause) -> &'static str {
    match cause {
        ResetCause::PowerOnOrBrownOut => "power-on-or-brown-out",
        ResetCause::RunPin => "run-pin",
        ResetCause::WatchdogTimeout => "watchdog-timeout",
        ResetCause::Forced => "forced",
        ResetCause::DebuggerRestart => "debugger-restart",
        ResetCause::Unknown => "unknown",
    }
}

/// The bits the chip keeps across a reset that say why it happened: the watchdog's reason
/// register, and the power-on state machine's chip reset register.
#[derive(Debug, Clone, Copy, PartialEq, Eq, Structural)]
pub struct ResetFlags {
    pub watchdog_timer: bool,
    pub watchdog_force: bool,
    pub had_power_on_reset: bool,
    pub had_run_pin: bool,
    pub had_power_on_state_machine_restart: bool,
}

/// Which cause the flags tell of. The watchdog comes first: a watchdog reset runs through the same
/// power-on state machine, so the chip reset register alone would report it as a restart.
pub open spec fn cause_of(flags: ResetFlags) -> ResetCause {
    if flags.watchdog_timer {
        ResetCause::WatchdogTimeout
    } else if flags.watchdog_force {
        ResetCause::Forced
    } else if flags.had_power_on_reset {
        ResetCause::PowerOnOrBrownOut
    } else if flags.had_run_pin {
        ResetCause::RunPin
    } else if flags.had_power_on_state_machine_restart {
        ResetCause::DebuggerRestart
    } else {
        ResetCause::Unknown
    }
}

impl ResetCause {
    /// The string published to MQTT. Kept short and stable so it can be grepped and compared
    /// across boots.
    pub fn as_str(self) -> (text: &'static str)
        ensures
            text == reset_cause_text(self),
    {
        match self {
            ResetCause::PowerOnOrBrownOut => "power-on-or-brown-out",
            ResetCause::RunPin => "run-pin",
            ResetCause::WatchdogTimeout => "watchdog-timeout",
            ResetCause::Forced => "forced",
            ResetCause::DebuggerRestart => "debugger-restart",
            ResetCause::Unknown => "unknown",
        }
    }

    /// Why the chip last reset, from the flags it kept: see [`cause_of`].
    pub fn from_flags(flags: ResetFlags) -> (cause: Self)
        ensures
            cause == cause_of(flags),
    {
        if flags.watchdog_timer {
            return ResetCause::WatchdogTimeout;
        }
        if flags.watchdog_force {
            return ResetCause::Forced;
        }
        if flags.had_power_on_reset {
            ResetCause::PowerOnOrBrownOut
        } else if flags.had_run_pin {
            ResetCause::RunPin
        } else if flags.had_power_on_state_machine_restart {
            ResetCause::DebuggerRestart
        } else {
            ResetCause::Unknown
        }
    }
}

} // verus!

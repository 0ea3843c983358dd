//! Acquisition strategy: the ordered fallback chain of external tools that
//! can produce raw listening-socket text, as an explicit enumeration with
//! pure decision functions.
//!
//! The caller runs the tool a tier names and reports back whether it
//! succeeded; the functions here only decide which tier comes first and
//! which tier follows a failed one.

use vstd::prelude::*;
use crate::parser::SourceFormat;

verus! {

/// One ranked acquisition strategy.
#[derive(Clone, Copy, PartialEq, Eq, Structural, Debug)]
pub enum Tier {
    /// Privileged port listing through the privilege-elevation helper.
    Privileged,
    /// Unprivileged modern socket-statistics tool.
    SocketStats,
    /// Legacy unprivileged port-listing tool.
    Legacy,
}

/// The terminal acquisition failure: every tier was exhausted.
#[derive(Clone, Copy, PartialEq, Eq, Structural, Debug)]
pub enum AcquisitionError {
    /// All three acquisition tiers failed; no inventory was produced.
    AcquisitionFailed,
}

/// The output shape the tool of a tier produces.
pub open spec fn spec_tier_format(t: Tier) -> SourceFormat {
    match t {
        Tier::Privileged => SourceFormat::PrivilegedPortList,
        Tier::SocketStats => SourceFormat::SocketStats,
        Tier::Legacy => SourceFormat::LegacyPortList,
    }
}

/// Whether a tier's tool runs with elevated privileges.
pub open spec fn spec_tier_privileged(t: Tier) -> bool {
    t is Privileged
}

/// The first tier to attempt: the privileged one when the last successful
/// acquisition was privileged (or on a first-time acquisition), else the
/// first unprivileged one.
pub open spec fn spec_start_tier(replay_privileged: bool) -> Tier {
    if replay_privileged {
        Tier::Privileged
    } else {
        Tier::SocketStats
    }
}

/// The tier to fall through to after a failure, if any is left.
pub open spec fn spec_next_tier(t: Tier) -> Option<Tier> {
    match t {
        Tier::Privileged => Some(Tier::SocketStats),
        Tier::SocketStats => Some(Tier::Legacy),
        Tier::Legacy => None,
    }
}

/// The output shape the tool of a tier produces.
pub fn tier_format(t: Tier) -> (r: SourceFormat)
    ensures
        r == spec_tier_format(t),
{
    match t {
        Tier::Privileged => SourceFormat::PrivilegedPortList,
        Tier::SocketStats => SourceFormat::SocketStats,
        Tier::Legacy => SourceFormat::LegacyPortList,
    }
}

/// Whether a tier's tool runs with elevated privileges.
pub fn tier_privileged(t: Tier) -> (r: bool)
    ensures
        r == spec_tier_privileged(t),
{
    match t {
        Tier::Privileged => true,
        _ => false,
    }
}

/// Picks the tier an acquisition starts with; a failed attempt falls through
/// `next_tier` from there.
pub fn start_tier(replay_privileged: bool) -> (r: Tier)
    ensures
        r == spec_start_tier(replay_privileged),
{
    if replay_privileged {
        Tier::Privileged
    } else {
        Tier::SocketStats
    }
}

/// The tier to fall through to after a failure; `None` ends the chain with
/// `AcquisitionFailed`.
pub fn next_tier(t: Tier) -> (r: Option<Tier>)
    ensures
        r == spec_next_tier(t),
{
    match t {
        Tier::Privileged => Some(Tier::SocketStats),
        Tier::SocketStats => Some(Tier::Legacy),
        Tier::Legacy => None,
    }
}

} // verus!

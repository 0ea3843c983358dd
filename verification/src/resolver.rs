//! Inventory resolver: owns the current port inventory and the privilege
//! flag, replaces the inventory wholesale from an acquisition outcome, and
//! confirms the processes of parsed records.

use vstd::prelude::*;
use crate::acquire::{AcquisitionError, Tier, spec_start_tier, spec_tier_format,
    spec_tier_privileged, start_tier, tier_format, tier_privileged};
use crate::parser::{parse, spec_parse};
use crate::process::{refresh_one, ProcessDetail};
use crate::record::PortRecord;

verus! {

/// The complete current snapshot of port records, together with the
/// privilege state that produced it. Replaced wholesale on every refresh;
/// the record order equals the order of rows in the tool's output.
pub struct Inventory {
    /// The port records of the last successful acquisition, in output order.
    pub records: Vec<PortRecord>,
    /// Whether the acquisition that produced `records` ran privileged.
    pub is_root: bool,
}

impl Inventory {
    /// The empty startup inventory: no records, unprivileged.
    pub fn new() -> (inv: Inventory)
        ensures
            inv.records@.len() == 0,
            !inv.is_root,
    {
        Inventory { records: Vec::new(), is_root: false }
    }

    /// The tier a manual refresh starts with: it replays the last successful
    /// tier first.
    pub fn refresh_start_tier(&self) -> (t: Tier)
        ensures
            t == spec_start_tier(self.is_root),
    {
        start_tier(self.is_root)
    }

    /// Applies the outcome of an acquisition attempt. A success replaces the
    /// inventory with the parse of the raw text and records the tier's
    /// privilege; a terminal failure leaves the inventory exactly as it was
    /// and reports `AcquisitionFailed`.
    pub fn refresh_with(&mut self, outcome: Option<(Tier, &str)>) -> (r: Result<
        (),
        AcquisitionError,
    >)
        ensures
            outcome is None ==> *final(self) == *old(self) && r == Result::<
                (),
                AcquisitionError,
            >::Err(AcquisitionError::AcquisitionFailed),
            outcome matches Some((t, raw)) ==> {
                &&& final(self).records.deep_view() == spec_parse(
                    spec_tier_format(t),
                    raw@,
                    spec_tier_privileged(t),
                )
                &&& final(self).is_root == spec_tier_privileged(t)
                &&& r is Ok
            },
    {
        match outcome {
            None => Err(AcquisitionError::AcquisitionFailed),
            Some((tier, raw)) => {
                let format = tier_format(tier);
                let privileged = tier_privileged(tier);
                self.records = parse(format, raw, privileged);
                self.is_root = privileged;
                Ok(())
            },
        }
    }

    /// Confirms, for every record carrying a PID, whether that process still
    /// resolves, re-sampling each one. The inventory itself is not changed:
    /// a vanished process leaves its record intact, and its detail is simply
    /// absent.
    pub fn confirm_processes(&self) -> (r: Vec<Option<ProcessDetail>>)
        ensures
            r@.len() == self.records@.len(),
            forall|i: int|
                0 <= i < r@.len() ==> (self.records@[i].pid is None ==> r@[i] is None),
            forall|i: int|
                0 <= i < r@.len() ==> (#[trigger] r@[i] matches Some(d) ==> self.records@[i].pid == Some(
                    d.pid,
                )),
    {
        let mut r: Vec<Option<ProcessDetail>> = Vec::new();
        let mut i: usize = 0;
        while i < self.records.len()
            invariant
                i <= self.records@.len(),
                r@.len() == i,
                forall|k: int|
                    0 <= k < r@.len() ==> (self.records@[k].pid is None ==> r@[k] is None),
                forall|k: int|
                    0 <= k < r@.len() ==> (#[trigger] r@[k] matches Some(d) ==> self.records@[k].pid == Some(
                        d.pid,
                    )),
            decreases self.records@.len() - i,
        {
            match self.records[i].pid {
                Some(pid) => {
                    let d = refresh_one(pid);
                    r.push(d);
                },
                None => {
                    r.push(None);
                },
            }
            i += 1;
        }
        r
    }
}

} // verus!

//! Setting or clearing the primary flag of a planned logical monitor.

use vstd::prelude::*;

use crate::display_config::proxied_methods::ApplyConfig;

verus! {

/// Sets the primary flag of a logical monitor to `primary`.
#[derive(Debug, Clone, Copy, PartialEq, Eq, Structural)]
pub struct PrimaryAction {
    pub primary: bool,
}

impl PrimaryAction {
    /// Applies the action to a planned logical monitor; nothing else changes.
    pub fn apply(&self, config: &mut ApplyConfig)
        ensures
            final(config).primary == self.primary,
            final(config).x_pos == old(config).x_pos,
            final(config).y_pos == old(config).y_pos,
            final(config).scale == old(config).scale,
            final(config).transform == old(config).transform,
            final(config).monitors@ == old(config).monitors@,
    {
        config.primary = self.primary;
    }

    /// What the action announces.
    pub fn message(&self) -> (s: &'static str)
        ensures
            s@ == if self.primary {
                "setting monitor as primary"@
            } else {
                "clearing primary status from this monitor"@
            },
    {
        if self.primary {
            "setting monitor as primary"
        } else {
            "clearing primary status from this monitor"
        }
    }
}

} // verus!

//! The display configuration that Mutter reports through `GetCurrentState`,
//! held as plain values: every `f64` as its bit pattern, and of each property
//! map the entries that the logic reads.

use vstd::prelude::*;

use crate::search::{first_index, lemma_first_index, lemma_first_index_props};
use crate::text::str_eq;

pub mod proxied_methods;
pub mod resources;

verus! {

// ---------------------------------------------------------------------------
// Transforms
// ---------------------------------------------------------------------------

/// Mutter's transform bits: the two low bits are the rotation in quarter turns
/// clockwise, and bit 2 marks a flip.
pub const TRANSFORM_NORMAL: u32 = 0;
pub const TRANSFORM_R90: u32 = 1;
pub const TRANSFORM_R180: u32 = 2;
pub const TRANSFORM_R270: u32 = 3;
pub const TRANSFORM_FLIPPED: u32 = 4;

/// The rotation part of a transform, in quarter turns clockwise.
pub open spec fn rotation_of(transform: u32) -> u32 {
    transform % 4
}

/// Whether a transform flips.
pub open spec fn is_flipped(transform: u32) -> bool {
    (transform / 4) % 2 == 1
}

/// The rotation bits of a transform (`transform & R270`).
pub fn rotation_bits(transform: u32) -> (r: u32)
    ensures
        r == rotation_of(transform),
{
    assert(transform & 3 == transform % 4) by (bit_vector);
    transform & TRANSFORM_R270
}

/// Whether the flip bit of a transform is set (`transform & FLIPPED != 0`).
pub fn flipped(transform: u32) -> (r: bool)
    ensures
        r == is_flipped(transform),
{
    assert((transform & 4 == 0) == ((transform / 4) % 2 == 0)) by (bit_vector);
    transform & TRANSFORM_FLIPPED != 0
}

/// A rotation below four with the flip bit set (`rotation | FLIPPED`).
pub fn with_flip(rotation: u32) -> (r: u32)
    requires
        rotation < 4,
    ensures
        r == rotation + 4,
{
    assert(rotation < 4 ==> rotation | 4 == rotation + 4) by (bit_vector);
    rotation | TRANSFORM_FLIPPED
}

// ---------------------------------------------------------------------------
// Layout modes
// ---------------------------------------------------------------------------

/// How Mutter lays out logical monitors.
#[derive(Debug, Clone, Copy, PartialEq, Eq, Structural)]
pub enum LayoutMode {
    Logical,
    Physical,
    GlobalUiLogical,
}

impl LayoutMode {
    pub open spec fn spec_raw_value(self) -> nat {
        match self {
            LayoutMode::Logical => 1,
            LayoutMode::Physical => 2,
            LayoutMode::GlobalUiLogical => 3,
        }
    }

    pub open spec fn spec_name(self) -> Seq<char> {
        match self {
            LayoutMode::Logical => "logical"@,
            LayoutMode::Physical => "physical"@,
            LayoutMode::GlobalUiLogical => "global-ui-logical"@,
        }
    }

    pub open spec fn spec_from_name(s: Seq<char>) -> Option<LayoutMode> {
        if s == "logical"@ {
            Some(LayoutMode::Logical)
        } else if s == "physical"@ {
            Some(LayoutMode::Physical)
        } else if s == "global-ui-logical"@ {
            Some(LayoutMode::GlobalUiLogical)
        } else {
            None
        }
    }

    pub open spec fn spec_from_raw(value: int) -> Option<LayoutMode> {
        if value == 1 {
            Some(LayoutMode::Logical)
        } else if value == 2 {
            Some(LayoutMode::Physical)
        } else if value == 3 {
            Some(LayoutMode::GlobalUiLogical)
        } else {
            None
        }
    }

    pub fn raw_value(self) -> (raw: u32)
        ensures
            raw == self.spec_raw_value(),
    {
        match self {
            LayoutMode::Logical => 1,
            LayoutMode::Physical => 2,
            LayoutMode::GlobalUiLogical => 3,
        }
    }

    pub fn from_raw(value: u32) -> (mode: Option<LayoutMode>)
        ensures
            mode == LayoutMode::spec_from_raw(value as int),
    {
        match value {
            1 => Some(LayoutMode::Logical),
            2 => Some(LayoutMode::Physical),
            3 => Some(LayoutMode::GlobalUiLogical),
            _ => None,
        }
    }

    pub fn as_str(self) -> (s: &'static str)
        ensures
            s@ == self.spec_name(),
    {
        match self {
            LayoutMode::Logical => "logical",
            LayoutMode::Physical => "physical",
            LayoutMode::GlobalUiLogical => "global-ui-logical",
        }
    }

    pub fn from_name(value: &str) -> (mode: Option<LayoutMode>)
        ensures
            mode == LayoutMode::spec_from_name(value@),
    {
        if str_eq(value, "logical") {
            Some(LayoutMode::Logical)
        } else if str_eq(value, "physical") {
            Some(LayoutMode::Physical)
        } else if str_eq(value, "global-ui-logical") {
            Some(LayoutMode::GlobalUiLogical)
        } else {
            None
        }
    }
}

// ---------------------------------------------------------------------------
// Physical monitors and their modes
// ---------------------------------------------------------------------------

#[derive(Debug, Clone, Copy, PartialEq, Eq, Structural)]
pub struct KnownModeProperties {
    pub is_current: bool,
    pub is_preferred: bool,
}

/// A mode of a physical monitor. `refresh_rate`, `preferred_scale` and the
/// entries of `supported_scales` are `f64` bit patterns.
#[derive(Debug, Clone)]
pub struct Mode {
    pub id: String,
    pub width: i32,
    pub height: i32,
    pub refresh_rate: u64,
    pub preferred_scale: u64,
    pub supported_scales: Vec<u64>,
    pub known_properties: KnownModeProperties,
}

/// A physical monitor. `color_mode` is the raw `color-mode` property and
/// `supported_color_modes` the raw entries of `supported-color-modes`.
#[derive(Debug, Clone)]
pub struct PhysicalMonitor {
    pub connector: String,
    pub vendor: String,
    pub product: String,
    pub serial: String,
    pub modes: Vec<Mode>,
    pub color_mode: Option<u64>,
    pub supported_color_modes: Vec<u64>,
}

// ---------------------------------------------------------------------------
// Logical monitors
// ---------------------------------------------------------------------------

/// A monitor as a logical monitor names it.
#[derive(Debug, Clone)]
pub struct Monitor {
    pub connector: String,
    pub vendor: String,
    pub product: String,
    pub serial: String,
}

/// A logical monitor. `scale` is an `f64` bit pattern and `transform` holds
/// Mutter's transform bits.
#[derive(Debug, Clone)]
pub struct LogicalMonitor {
    pub x: i32,
    pub y: i32,
    pub scale: u64,
    pub transform: u32,
    pub primary: bool,
    pub monitors: Vec<Monitor>,
}

#[derive(Debug, Clone, Copy, PartialEq, Eq, Structural)]
pub struct KnownProperties {
    pub supports_mirroring: bool,
    pub layout_mode: LayoutMode,
    pub supports_changing_layout_mode: bool,
    pub global_scale_required: bool,
}

/// The whole display configuration.
#[derive(Debug, Clone)]
pub struct DisplayConfig {
    pub serial: u32,
    pub monitors: Vec<PhysicalMonitor>,
    pub logical_monitors: Vec<LogicalMonitor>,
    pub known_properties: KnownProperties,
}

/// Whether the logical monitor lists the connector `c`.
pub open spec fn logical_has_connector(lm: LogicalMonitor, c: Seq<char>) -> bool {
    exists|j: int| 0 <= j < lm.monitors@.len() && (#[trigger] lm.monitors@[j]).connector@ == c
}

/// Whether a logical monitor lists the connector `connector`.
pub fn logical_monitor_has_connector(lm: &LogicalMonitor, connector: &str) -> (r: bool)
    ensures
        r == logical_has_connector(*lm, connector@),
{
    let mut j: usize = 0;
    while j < lm.monitors.len()
        invariant
            0 <= j <= lm.monitors@.len(),
            forall|k: int| 0 <= k < j ==> (#[trigger] lm.monitors@[k]).connector@ != connector@,
        decreases lm.monitors@.len() - j,
    {
        if str_eq(lm.monitors[j].connector.as_str(), connector) {
            return true;
        }
        j = j + 1;
    }
    false
}

impl DisplayConfig {
    /// Index of the first physical monitor on connector `c` (the number of
    /// monitors where there is none).
    pub open spec fn physical_index(&self, c: Seq<char>) -> int {
        first_index(self.monitors@.len(), |i: int| self.monitors@[i].connector@ == c)
    }

    /// Index of the first logical monitor that lists connector `c` (the number
    /// of logical monitors where there is none).
    pub open spec fn logical_index(&self, c: Seq<char>) -> int {
        first_index(
            self.logical_monitors@.len(),
            |i: int| logical_has_connector(self.logical_monitors@[i], c),
        )
    }

    /// Whether connector `c` is part of the active layout.
    pub open spec fn is_enabled(&self, c: Seq<char>) -> bool {
        self.logical_index(c) < self.logical_monitors@.len()
    }

    /// The physical monitor on `connector`, the first where several are.
    pub fn physical_monitor(&self, connector: &str) -> (r: Option<&PhysicalMonitor>)
        ensures
            r is None <==> self.physical_index(connector@) == self.monitors@.len(),
            r matches Some(m) ==> *m == self.monitors@[self.physical_index(connector@)],
    {
        let ghost pred = |i: int| self.monitors@[i].connector@ == connector@;
        let mut i: usize = 0;
        while i < self.monitors.len()
            invariant
                0 <= i <= self.monitors@.len(),
                pred == (|i: int| self.monitors@[i].connector@ == connector@),
                forall|j: int| 0 <= j < i ==> !#[trigger] pred(j),
            decreases self.monitors@.len() - i,
        {
            if str_eq(self.monitors[i].connector.as_str(), connector) {
                proof {
                    lemma_first_index(self.monitors@.len(), pred, i as int);
                }
                return Some(&self.monitors[i]);
            }
            i = i + 1;
        }
        proof {
            lemma_first_index(self.monitors@.len(), pred, i as int);
        }
        None
    }

    /// Index of the logical monitor that lists `connector`.
    pub fn logical_monitor_index_for_connector(&self, connector: &str) -> (r: Option<usize>)
        ensures
            r is None <==> !self.is_enabled(connector@),
            r matches Some(i) ==> i == self.logical_index(connector@),
    {
        let ghost pred = |i: int| logical_has_connector(self.logical_monitors@[i], connector@);
        let mut i: usize = 0;
        while i < self.logical_monitors.len()
            invariant
                0 <= i <= self.logical_monitors@.len(),
                pred == (|i: int| logical_has_connector(self.logical_monitors@[i], connector@)),
                forall|j: int| 0 <= j < i ==> !#[trigger] pred(j),
            decreases self.logical_monitors@.len() - i,
        {
            if logical_monitor_has_connector(&self.logical_monitors[i], connector) {
                proof {
                    lemma_first_index(self.logical_monitors@.len(), pred, i as int);
                }
                return Some(i);
            }
            i = i + 1;
        }
        proof {
            lemma_first_index(self.logical_monitors@.len(), pred, i as int);
        }
        None
    }

    /// The logical monitor that lists `connector`, the first where several do.
    pub fn logical_monitor_for_connector(&self, connector: &str) -> (r: Option<&LogicalMonitor>)
        ensures
            r is None <==> !self.is_enabled(connector@),
            r matches Some(lm) ==> *lm == self.logical_monitors@[self.logical_index(connector@)],
    {
        match self.logical_monitor_index_for_connector(connector) {
            Some(i) => Some(&self.logical_monitors[i]),
            None => None,
        }
    }

    /// The logical and the physical monitor of an enabled connector.
    pub fn search(&self, connector: &str) -> (r: Option<(&LogicalMonitor, &PhysicalMonitor)>)
        ensures
            r is None <==> !self.is_enabled(connector@) || self.physical_index(connector@)
                == self.monitors@.len(),
            r matches Some((lm, pm)) ==> *lm == self.logical_monitors@[self.logical_index(
                connector@,
            )] && *pm == self.monitors@[self.physical_index(connector@)],
    {
        match self.logical_monitor_for_connector(connector) {
            Some(lm) => match self.physical_monitor(connector) {
                Some(pm) => Some((lm, pm)),
                None => None,
            },
            None => None,
        }
    }
}

/// Every layout mode reads back from its name and from its D-Bus value.
pub proof fn lemma_layout_mode_names(m: LayoutMode)
    ensures
        LayoutMode::spec_from_name(m.spec_name()) == Some(m),
        LayoutMode::spec_from_raw(m.spec_raw_value() as int) == Some(m),
{
    reveal_strlit("logical");
    reveal_strlit("physical");
    reveal_strlit("global-ui-logical");
    assert("logical"@.len() == 7 && "physical"@.len() == 8 && "global-ui-logical"@.len() == 17);
}

} // verus!

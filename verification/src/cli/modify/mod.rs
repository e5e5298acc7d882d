//! `modify`: the option rules, transform arithmetic, and the resolution of
//! modes, scales, color modes, clones and native controls for one output.

use vstd::prelude::*;

use crate::cli::common::{parse_position, parse_position_spec, parse_resolution, parse_resolution_spec};
use crate::display_config::proxied_methods::{
    BacklightState, BrightnessFilter, ColorMode, GammaAdjustment, NativeDisplayState, PowerSaveMode,
    truncate_u32,
};
use crate::display_config::{
    DisplayConfig, LayoutMode, Mode, PhysicalMonitor, TRANSFORM_NORMAL, TRANSFORM_R180,
    TRANSFORM_R270, TRANSFORM_R90, flipped, is_flipped, rotation_bits, rotation_of, with_flip,
};
use crate::text::{chars_of, str_eq};
use crate::float_bits::FloatOrder;

pub mod actions;
pub mod changes;
pub mod messages;
pub mod planner;


verus! {

// ---------------------------------------------------------------------------
// Option values
// ---------------------------------------------------------------------------

/// An absolute position for a logical monitor.
#[derive(Clone, Copy, Debug, PartialEq, Eq, Structural)]
pub struct Position {
    pub x: i32,
    pub y: i32,
}

impl Position {
    /// Parses `X,Y` or `XxY`, as the `--position` option does.
    pub fn from_str(s: &str) -> (r: Result<Position, String>)
        ensures
            r matches Ok(p) ==> parse_position_spec(s@) == Some((p.x as int, p.y as int)),
            r matches Err(message) ==> parse_position_spec(s@) is None && message@
                == "position must be X,Y or XxY, for example 0,0 or 1920x0"@,
    {
        match parse_position(s) {
            Some((x, y)) => Ok(Position { x, y }),
            None => Err("position must be X,Y or XxY, for example 0,0 or 1920x0".to_owned()),
        }
    }

    /// The position as `X,Y`.
    pub fn to_text(&self) -> (r: String)
        ensures
            r@ == crate::text::signed_decimal(self.x as int) + ","@ + crate::text::signed_decimal(self.y as int),
    {
        let mut r = String::new();
        crate::text::push_signed_decimal(&mut r, self.x as i64);
        crate::text::push_str(&mut r, ",");
        crate::text::push_signed_decimal(&mut r, self.y as i64);
        r
    }
}

/// A character in ASCII lower case.
pub open spec fn ascii_lower(c: char) -> char {
    if 'A' <= c && c <= 'Z' {
        ((c as u32) + 32) as char
    } else {
        c
    }
}

/// A string in ASCII lower case.
pub open spec fn lower(s: Seq<char>) -> Seq<char> {
    s.map_values(|c: char| ascii_lower(c))
}

fn ascii_lower_char(c: char) -> (r: char)
    ensures
        r == ascii_lower(c),
{
    if 'A' <= c && c <= 'Z' {
        match c {
            'A' => 'a', 'B' => 'b', 'C' => 'c', 'D' => 'd', 'E' => 'e', 'F' => 'f', 'G' => 'g',
            'H' => 'h', 'I' => 'i', 'J' => 'j', 'K' => 'k', 'L' => 'l', 'M' => 'm', 'N' => 'n',
            'O' => 'o', 'P' => 'p', 'Q' => 'q', 'R' => 'r', 'S' => 's', 'T' => 't', 'U' => 'u',
            'V' => 'v', 'W' => 'w', 'X' => 'x', 'Y' => 'y', _ => 'z',
        }
    } else {
        c
    }
}

/// Whether `s`, in lower case, is `word`.
fn lower_eq(s: &Vec<char>, word: &str) -> (r: bool)
    ensures
        r == (lower(s@) == word@),
{
    let w = chars_of(word);
    if s.len() != w.len() {
        return false;
    }
    let mut i: usize = 0;
    while i < s.len()
        invariant
            s@.len() == w@.len(),
            w@ == word@,
            0 <= i <= s@.len(),
            forall|j: int| 0 <= j < i ==> ascii_lower(#[trigger] s@[j]) == w@[j],
        decreases s@.len() - i,
    {
        if ascii_lower_char(s[i]) != w[i] {
            assert(lower(s@)[i as int] != word@[i as int]);
            return false;
        }
        i = i + 1;
    }
    assert(lower(s@) =~= word@);
    true
}

/// A reflection, in xrandr's names.
#[derive(Clone, Copy, Debug, PartialEq, Eq, Structural)]
pub enum Reflection {
    Normal,
    X,
    Y,
    XY,
}

impl Reflection {
    pub open spec fn spec_name(self) -> Seq<char> {
        match self {
            Reflection::Normal => "normal"@,
            Reflection::X => "x"@,
            Reflection::Y => "y"@,
            Reflection::XY => "xy"@,
        }
    }

    /// The reflection named by `s` in any letter case.
    pub open spec fn spec_from_str(s: Seq<char>) -> Option<Reflection> {
        let l = lower(s);
        if l == "normal"@ {
            Some(Reflection::Normal)
        } else if l == "x"@ {
            Some(Reflection::X)
        } else if l == "y"@ {
            Some(Reflection::Y)
        } else if l == "xy"@ {
            Some(Reflection::XY)
        } else {
            None
        }
    }

    pub fn from_str(s: &str) -> (r: Option<Reflection>)
        ensures
            r == Reflection::spec_from_str(s@),
    {
        let v = chars_of(s);
        if lower_eq(&v, "normal") {
            Some(Reflection::Normal)
        } else if lower_eq(&v, "x") {
            Some(Reflection::X)
        } else if lower_eq(&v, "y") {
            Some(Reflection::Y)
        } else if lower_eq(&v, "xy") {
            Some(Reflection::XY)
        } else {
            None
        }
    }

    pub fn as_str(self) -> (s: &'static str)
        ensures
            s@ == self.spec_name(),
    {
        match self {
            Reflection::Normal => "normal",
            Reflection::X => "x",
            Reflection::Y => "y",
            Reflection::XY => "xy",
        }
    }
}

/// A rotation, in xrandr's names.
#[derive(Clone, Copy, Debug, PartialEq, Eq, Structural)]
pub enum Rotation {
    Normal,
    Left,
    Right,
    Inverted,
}

impl Rotation {
    pub open spec fn spec_name(self) -> Seq<char> {
        match self {
            Rotation::Normal => "normal"@,
            Rotation::Left => "left"@,
            Rotation::Right => "right"@,
            Rotation::Inverted => "inverted"@,
        }
    }

    /// The rotation named by `s` in any letter case.
    pub open spec fn spec_from_str(s: Seq<char>) -> Option<Rotation> {
        let l = lower(s);
        if l == "normal"@ {
            Some(Rotation::Normal)
        } else if l == "left"@ {
            Some(Rotation::Left)
        } else if l == "right"@ {
            Some(Rotation::Right)
        } else if l == "inverted"@ {
            Some(Rotation::Inverted)
        } else {
            None
        }
    }

    pub fn from_str(s: &str) -> (r: Option<Rotation>)
        ensures
            r == Rotation::spec_from_str(s@),
    {
        let v = chars_of(s);
        if lower_eq(&v, "normal") {
            Some(Rotation::Normal)
        } else if lower_eq(&v, "left") {
            Some(Rotation::Left)
        } else if lower_eq(&v, "right") {
            Some(Rotation::Right)
        } else if lower_eq(&v, "inverted") {
            Some(Rotation::Inverted)
        } else {
            None
        }
    }

    pub fn as_str(self) -> (s: &'static str)
        ensures
            s@ == self.spec_name(),
    {
        match self {
            Rotation::Normal => "normal",
            Rotation::Left => "left",
            Rotation::Right => "right",
            Rotation::Inverted => "inverted",
        }
    }
}

/// The options of `modify`. Every `f64` is held as its bit pattern.
pub struct ActionOptions {
    pub rotation: Option<Rotation>,
    pub reflect: Option<Reflection>,
    pub mode: Option<String>,
    pub preferred: bool,
    pub auto_mode: bool,
    pub refresh: Option<u64>,
    pub primary: bool,
    pub noprimary: bool,
    pub off: bool,
    pub layout_mode: Option<LayoutMode>,
    pub power_save: Option<PowerSaveMode>,
    pub position: Option<Position>,
    pub backlight: Option<i32>,
    pub luminance: Option<u64>,
    pub reset_luminance: bool,
    pub same_as: Option<String>,
    pub left_of: Option<String>,
    pub right_of: Option<String>,
    pub above: Option<String>,
    pub below: Option<String>,
    pub scale: Option<u64>,
    pub color_mode: Option<ColorMode>,
    pub brightness: Option<u64>,
    pub gamma: Option<GammaAdjustment>,
    pub filter: BrightnessFilter,
}

// ---------------------------------------------------------------------------
// Errors
// ---------------------------------------------------------------------------

/// Why `modify` refuses a request. `InvalidLuminance`, `requested` and
/// `supported_scales` hold `f64` bit patterns.
#[derive(Debug)]
pub enum Error {
    NotFound,
    OutputDisabled { connector: String },
    ReferenceOutputDisabled { connector: String },
    CloneWithSelf { connector: String },
    CloneNotSupported { connector: String, reference: String },
    CloneCrtcNotShared { connector: String, reference: String },
    CloneModeUnavailable { connector: String, reference: String, mode: String },
    ColorModeUnsupported { connector: String },
    ColorModeUnavailable { connector: String, requested: ColorMode, supported: Vec<ColorMode> },
    LayoutModeUnsupported { requested: LayoutMode, current: LayoutMode },
    PowerSaveUnsupported,
    BacklightUnsupported { connector: String },
    InvalidBacklight(i32),
    LuminanceUnsupported { connector: String },
    InvalidLuminance(u64),
    MutterRejectedClone { connector: String, reference: String, details: String },
    ModeNotFound { connector: String, mode: String },
    PreferredModeNotFound { connector: String },
    AutoModeNotFound { connector: String },
    CurrentModeNotFound { connector: String, option: &'static str },
    InvalidScale { connector: String, mode: String, requested: u64, supported_scales: Vec<u64> },
    RefreshWithExactMode { mode: String },
    ConflictingOptions { option: &'static str, conflicting: &'static str },
}

// ---------------------------------------------------------------------------
// Conflicting options
// ---------------------------------------------------------------------------

/// The number of pairs of options that cannot be combined.
pub const CONFLICT_COUNT: usize = 56;

/// The `k`-th pair of options that cannot be combined, in the order they are
/// checked: `(first used, first name, second used, second name)`.
pub open spec fn conflict(a: &ActionOptions, k: int) -> (bool, Seq<char>, bool, Seq<char>) {
    if k == 0 {
        (a.mode is Some, "--mode"@, a.preferred, "--preferred"@)
    } else if k == 1 {
        (a.mode is Some, "--mode"@, a.auto_mode, "--auto"@)
    } else if k == 2 {
        (a.preferred, "--preferred"@, a.auto_mode, "--auto"@)
    } else if k == 3 {
        (a.preferred, "--preferred"@, a.refresh is Some, "--refresh"@)
    } else if k == 4 {
        (a.auto_mode, "--auto"@, a.refresh is Some, "--refresh"@)
    } else if k == 5 {
        (a.primary, "--primary"@, a.noprimary, "--noprimary"@)
    } else if k == 6 {
        (a.off, "--off"@, a.mode is Some, "--mode"@)
    } else if k == 7 {
        (a.off, "--off"@, a.preferred, "--preferred"@)
    } else if k == 8 {
        (a.off, "--off"@, a.auto_mode, "--auto"@)
    } else if k == 9 {
        (a.off, "--off"@, a.refresh is Some, "--refresh"@)
    } else if k == 10 {
        (a.off, "--off"@, a.rotation is Some, "--rotate"@)
    } else if k == 11 {
        (a.off, "--off"@, a.reflect is Some, "--reflect"@)
    } else if k == 12 {
        (a.off, "--off"@, a.position is Some, "--position"@)
    } else if k == 13 {
        (a.off, "--off"@, a.scale is Some, "--scale"@)
    } else if k == 14 {
        (a.off, "--off"@, a.color_mode is Some, "--color-mode"@)
    } else if k == 15 {
        (a.off, "--off"@, a.primary, "--primary"@)
    } else if k == 16 {
        (a.off, "--off"@, a.noprimary, "--noprimary"@)
    } else if k == 17 {
        (a.off, "--off"@, a.brightness is Some, "--brightness"@)
    } else if k == 18 {
        (a.off, "--off"@, a.gamma is Some, "--gamma"@)
    } else if k == 19 {
        (a.off, "--off"@, a.layout_mode is Some, "--layout-mode"@)
    } else if k == 20 {
        (a.off, "--off"@, a.power_save is Some, "--power-save"@)
    } else if k == 21 {
        (a.off, "--off"@, a.backlight is Some, "--backlight"@)
    } else if k == 22 {
        (a.off, "--off"@, a.luminance is Some, "--luminance"@)
    } else if k == 23 {
        (a.off, "--off"@, a.reset_luminance, "--reset-luminance"@)
    } else if k == 24 {
        (a.position is Some, "--position"@, a.left_of is Some, "--left-of"@)
    } else if k == 25 {
        (a.position is Some, "--position"@, a.right_of is Some, "--right-of"@)
    } else if k == 26 {
        (a.position is Some, "--position"@, a.above is Some, "--above"@)
    } else if k == 27 {
        (a.position is Some, "--position"@, a.below is Some, "--below"@)
    } else if k == 28 {
        (a.left_of is Some, "--left-of"@, a.right_of is Some, "--right-of"@)
    } else if k == 29 {
        (a.left_of is Some, "--left-of"@, a.above is Some, "--above"@)
    } else if k == 30 {
        (a.left_of is Some, "--left-of"@, a.below is Some, "--below"@)
    } else if k == 31 {
        (a.right_of is Some, "--right-of"@, a.above is Some, "--above"@)
    } else if k == 32 {
        (a.right_of is Some, "--right-of"@, a.below is Some, "--below"@)
    } else if k == 33 {
        (a.above is Some, "--above"@, a.below is Some, "--below"@)
    } else if k == 34 {
        (a.off, "--off"@, a.left_of is Some, "--left-of"@)
    } else if k == 35 {
        (a.off, "--off"@, a.right_of is Some, "--right-of"@)
    } else if k == 36 {
        (a.off, "--off"@, a.above is Some, "--above"@)
    } else if k == 37 {
        (a.off, "--off"@, a.below is Some, "--below"@)
    } else if k == 38 {
        (a.off, "--off"@, a.same_as is Some, "--same-as"@)
    } else if k == 39 {
        (a.same_as is Some, "--same-as"@, a.mode is Some, "--mode"@)
    } else if k == 40 {
        (a.same_as is Some, "--same-as"@, a.preferred, "--preferred"@)
    } else if k == 41 {
        (a.same_as is Some, "--same-as"@, a.auto_mode, "--auto"@)
    } else if k == 42 {
        (a.same_as is Some, "--same-as"@, a.refresh is Some, "--refresh"@)
    } else if k == 43 {
        (a.same_as is Some, "--same-as"@, a.rotation is Some, "--rotate"@)
    } else if k == 44 {
        (a.same_as is Some, "--same-as"@, a.reflect is Some, "--reflect"@)
    } else if k == 45 {
        (a.same_as is Some, "--same-as"@, a.position is Some, "--position"@)
    } else if k == 46 {
        (a.same_as is Some, "--same-as"@, a.left_of is Some, "--left-of"@)
    } else if k == 47 {
        (a.same_as is Some, "--same-as"@, a.right_of is Some, "--right-of"@)
    } else if k == 48 {
        (a.same_as is Some, "--same-as"@, a.above is Some, "--above"@)
    } else if k == 49 {
        (a.same_as is Some, "--same-as"@, a.below is Some, "--below"@)
    } else if k == 50 {
        (a.same_as is Some, "--same-as"@, a.scale is Some, "--scale"@)
    } else if k == 51 {
        (a.same_as is Some, "--same-as"@, a.color_mode is Some, "--color-mode"@)
    } else if k == 52 {
        (a.same_as is Some, "--same-as"@, a.backlight is Some, "--backlight"@)
    } else if k == 53 {
        (a.same_as is Some, "--same-as"@, a.luminance is Some, "--luminance"@)
    } else if k == 54 {
        (a.same_as is Some, "--same-as"@, a.reset_luminance, "--reset-luminance"@)
    } else {
        (a.luminance is Some, "--luminance"@, a.reset_luminance, "--reset-luminance"@)
    }
}

/// Whether `a` uses both options of the `k`-th pair.
pub open spec fn conflict_applies(a: &ActionOptions, k: int) -> bool {
    conflict(a, k).0 && conflict(a, k).2
}

/// Index of the first pair that `a` uses both options of (`CONFLICT_COUNT`
/// where there is none).
pub open spec fn first_conflict(a: &ActionOptions) -> int {
    crate::search::first_index(CONFLICT_COUNT as nat, |k: int| conflict_applies(a, k))
}

fn conflict_entry(actions: &ActionOptions, k: usize) -> (r: (bool, &'static str, bool, &'static str))
    requires
        k < CONFLICT_COUNT,
    ensures
        r.0 == conflict(actions, k as int).0,
        r.1@ == conflict(actions, k as int).1,
        r.2 == conflict(actions, k as int).2,
        r.3@ == conflict(actions, k as int).3,
{
    match k {
        0 => (actions.mode.is_some(), "--mode", actions.preferred, "--preferred"),
        1 => (actions.mode.is_some(), "--mode", actions.auto_mode, "--auto"),
        2 => (actions.preferred, "--preferred", actions.auto_mode, "--auto"),
        3 => (actions.preferred, "--preferred", actions.refresh.is_some(), "--refresh"),
        4 => (actions.auto_mode, "--auto", actions.refresh.is_some(), "--refresh"),
        5 => (actions.primary, "--primary", actions.noprimary, "--noprimary"),
        6 => (actions.off, "--off", actions.mode.is_some(), "--mode"),
        7 => (actions.off, "--off", actions.preferred, "--preferred"),
        8 => (actions.off, "--off", actions.auto_mode, "--auto"),
        9 => (actions.off, "--off", actions.refresh.is_some(), "--refresh"),
        10 => (actions.off, "--off", actions.rotation.is_some(), "--rotate"),
        11 => (actions.off, "--off", actions.reflect.is_some(), "--reflect"),
        12 => (actions.off, "--off", actions.position.is_some(), "--position"),
        13 => (actions.off, "--off", actions.scale.is_some(), "--scale"),
        14 => (actions.off, "--off", actions.color_mode.is_some(), "--color-mode"),
        15 => (actions.off, "--off", actions.primary, "--primary"),
        16 => (actions.off, "--off", actions.noprimary, "--noprimary"),
        17 => (actions.off, "--off", actions.brightness.is_some(), "--brightness"),
        18 => (actions.off, "--off", actions.gamma.is_some(), "--gamma"),
        19 => (actions.off, "--off", actions.layout_mode.is_some(), "--layout-mode"),
        20 => (actions.off, "--off", actions.power_save.is_some(), "--power-save"),
        21 => (actions.off, "--off", actions.backlight.is_some(), "--backlight"),
        22 => (actions.off, "--off", actions.luminance.is_some(), "--luminance"),
        23 => (actions.off, "--off", actions.reset_luminance, "--reset-luminance"),
        24 => (actions.position.is_some(), "--position", actions.left_of.is_some(), "--left-of"),
        25 => (actions.position.is_some(), "--position", actions.right_of.is_some(), "--right-of"),
        26 => (actions.position.is_some(), "--position", actions.above.is_some(), "--above"),
        27 => (actions.position.is_some(), "--position", actions.below.is_some(), "--below"),
        28 => (actions.left_of.is_some(), "--left-of", actions.right_of.is_some(), "--right-of"),
        29 => (actions.left_of.is_some(), "--left-of", actions.above.is_some(), "--above"),
        30 => (actions.left_of.is_some(), "--left-of", actions.below.is_some(), "--below"),
        31 => (actions.right_of.is_some(), "--right-of", actions.above.is_some(), "--above"),
        32 => (actions.right_of.is_some(), "--right-of", actions.below.is_some(), "--below"),
        33 => (actions.above.is_some(), "--above", actions.below.is_some(), "--below"),
        34 => (actions.off, "--off", actions.left_of.is_some(), "--left-of"),
        35 => (actions.off, "--off", actions.right_of.is_some(), "--right-of"),
        36 => (actions.off, "--off", actions.above.is_some(), "--above"),
        37 => (actions.off, "--off", actions.below.is_some(), "--below"),
        38 => (actions.off, "--off", actions.same_as.is_some(), "--same-as"),
        39 => (actions.same_as.is_some(), "--same-as", actions.mode.is_some(), "--mode"),
        40 => (actions.same_as.is_some(), "--same-as", actions.preferred, "--preferred"),
        41 => (actions.same_as.is_some(), "--same-as", actions.auto_mode, "--auto"),
        42 => (actions.same_as.is_some(), "--same-as", actions.refresh.is_some(), "--refresh"),
        43 => (actions.same_as.is_some(), "--same-as", actions.rotation.is_some(), "--rotate"),
        44 => (actions.same_as.is_some(), "--same-as", actions.reflect.is_some(), "--reflect"),
        45 => (actions.same_as.is_some(), "--same-as", actions.position.is_some(), "--position"),
        46 => (actions.same_as.is_some(), "--same-as", actions.left_of.is_some(), "--left-of"),
        47 => (actions.same_as.is_some(), "--same-as", actions.right_of.is_some(), "--right-of"),
        48 => (actions.same_as.is_some(), "--same-as", actions.above.is_some(), "--above"),
        49 => (actions.same_as.is_some(), "--same-as", actions.below.is_some(), "--below"),
        50 => (actions.same_as.is_some(), "--same-as", actions.scale.is_some(), "--scale"),
        51 => (actions.same_as.is_some(), "--same-as", actions.color_mode.is_some(), "--color-mode"),
        52 => (actions.same_as.is_some(), "--same-as", actions.backlight.is_some(), "--backlight"),
        53 => (actions.same_as.is_some(), "--same-as", actions.luminance.is_some(), "--luminance"),
        54 => (actions.same_as.is_some(), "--same-as", actions.reset_luminance, "--reset-luminance"),
        _ => (actions.luminance.is_some(), "--luminance", actions.reset_luminance, "--reset-luminance"),
    }
}

/// Refuses combinations of options that cannot be used together: the first
/// conflicting pair, in the order of `conflict`, is reported.
pub fn validate_actions(actions: &ActionOptions) -> (r: Result<(), Error>)
    ensures
        r is Ok <==> first_conflict(actions) == CONFLICT_COUNT,
        r matches Err(e) ==> (e matches Error::ConflictingOptions { option, conflicting }
            && first_conflict(actions) < CONFLICT_COUNT
            && option@ == conflict(actions, first_conflict(actions)).1
            && conflicting@ == conflict(actions, first_conflict(actions)).3),
{
    let ghost pred = |k: int| conflict_applies(actions, k);
    let mut i: usize = 0;
    while i < CONFLICT_COUNT
        invariant
            0 <= i <= CONFLICT_COUNT,
            pred == (|k: int| conflict_applies(actions, k)),
            forall|j: int| 0 <= j < i ==> !#[trigger] pred(j),
        decreases CONFLICT_COUNT - i,
    {
        let (option_used, option, conflicting_used, conflicting) = conflict_entry(actions, i);
        if option_used && conflicting_used {
            proof {
                crate::search::lemma_first_index(CONFLICT_COUNT as nat, pred, i as int);
            }
            return Err(Error::ConflictingOptions { option, conflicting });
        }
        i = i + 1;
    }
    proof {
        crate::search::lemma_first_index(CONFLICT_COUNT as nat, pred, CONFLICT_COUNT as int);
    }
    Ok(())
}

/// How many of the options that `--off` cannot be combined with are given:
/// mode selection (`--mode`, `--preferred`, `--auto`, `--refresh`),
/// mirroring, layout mode, power saving, rotation and reflection, absolute
/// and relative position, scale, color mode, the primary flag, backlight,
/// luminance and software color (`--brightness`, `--gamma`).
pub open spec fn off_partners_given(a: &ActionOptions) -> int {
    (if a.mode is Some { 1int } else { 0int })
        + (if a.preferred { 1int } else { 0int })
        + (if a.auto_mode { 1int } else { 0int })
        + (if a.refresh is Some { 1int } else { 0int })
        + (if a.rotation is Some { 1int } else { 0int })
        + (if a.reflect is Some { 1int } else { 0int })
        + (if a.position is Some { 1int } else { 0int })
        + (if a.scale is Some { 1int } else { 0int })
        + (if a.color_mode is Some { 1int } else { 0int })
        + (if a.primary { 1int } else { 0int })
        + (if a.noprimary { 1int } else { 0int })
        + (if a.brightness is Some { 1int } else { 0int })
        + (if a.gamma is Some { 1int } else { 0int })
        + (if a.layout_mode is Some { 1int } else { 0int })
        + (if a.power_save is Some { 1int } else { 0int })
        + (if a.backlight is Some { 1int } else { 0int })
        + (if a.luminance is Some { 1int } else { 0int })
        + (if a.reset_luminance { 1int } else { 0int })
        + (if a.left_of is Some { 1int } else { 0int })
        + (if a.right_of is Some { 1int } else { 0int })
        + (if a.above is Some { 1int } else { 0int })
        + (if a.below is Some { 1int } else { 0int })
        + (if a.same_as is Some { 1int } else { 0int })
}

/// `--off` given with any option it cannot be combined with is refused.
pub proof fn lemma_off_refuses_its_partners(a: &ActionOptions)
    requires
        a.off,
        off_partners_given(a) > 0,
    ensures
        first_conflict(a) < CONFLICT_COUNT,
{
    let pred = |k: int| conflict_applies(a, k);
    crate::search::lemma_first_index_props(CONFLICT_COUNT as nat, pred);
    if a.mode is Some {
        assert(pred(6));
    }
    if a.preferred {
        assert(pred(7));
    }
    if a.auto_mode {
        assert(pred(8));
    }
    if a.refresh is Some {
        assert(pred(9));
    }
    if a.rotation is Some {
        assert(pred(10));
    }
    if a.reflect is Some {
        assert(pred(11));
    }
    if a.position is Some {
        assert(pred(12));
    }
    if a.scale is Some {
        assert(pred(13));
    }
    if a.color_mode is Some {
        assert(pred(14));
    }
    if a.primary {
        assert(pred(15));
    }
    if a.noprimary {
        assert(pred(16));
    }
    if a.brightness is Some {
        assert(pred(17));
    }
    if a.gamma is Some {
        assert(pred(18));
    }
    if a.layout_mode is Some {
        assert(pred(19));
    }
    if a.power_save is Some {
        assert(pred(20));
    }
    if a.backlight is Some {
        assert(pred(21));
    }
    if a.luminance is Some {
        assert(pred(22));
    }
    if a.reset_luminance {
        assert(pred(23));
    }
    if a.left_of is Some {
        assert(pred(34));
    }
    if a.right_of is Some {
        assert(pred(35));
    }
    if a.above is Some {
        assert(pred(36));
    }
    if a.below is Some {
        assert(pred(37));
    }
    if a.same_as is Some {
        assert(pred(38));
    }
}

/// `--off` given with exactly one option it cannot be combined with is
/// refused, and the refusal names `--off` and that option.
pub proof fn lemma_off_names_its_partner(a: &ActionOptions)
    requires
        a.off,
        off_partners_given(a) == 1,
    ensures
        first_conflict(a) < CONFLICT_COUNT,
        conflict(a, first_conflict(a)).1 == "--off"@,
        a.mode is Some ==> conflict(a, first_conflict(a)).3 == "--mode"@,
        a.preferred ==> conflict(a, first_conflict(a)).3 == "--preferred"@,
        a.auto_mode ==> conflict(a, first_conflict(a)).3 == "--auto"@,
        a.refresh is Some ==> conflict(a, first_conflict(a)).3 == "--refresh"@,
        a.rotation is Some ==> conflict(a, first_conflict(a)).3 == "--rotate"@,
        a.reflect is Some ==> conflict(a, first_conflict(a)).3 == "--reflect"@,
        a.position is Some ==> conflict(a, first_conflict(a)).3 == "--position"@,
        a.scale is Some ==> conflict(a, first_conflict(a)).3 == "--scale"@,
        a.color_mode is Some ==> conflict(a, first_conflict(a)).3 == "--color-mode"@,
        a.primary ==> conflict(a, first_conflict(a)).3 == "--primary"@,
        a.noprimary ==> conflict(a, first_conflict(a)).3 == "--noprimary"@,
        a.brightness is Some ==> conflict(a, first_conflict(a)).3 == "--brightness"@,
        a.gamma is Some ==> conflict(a, first_conflict(a)).3 == "--gamma"@,
        a.layout_mode is Some ==> conflict(a, first_conflict(a)).3 == "--layout-mode"@,
        a.power_save is Some ==> conflict(a, first_conflict(a)).3 == "--power-save"@,
        a.backlight is Some ==> conflict(a, first_conflict(a)).3 == "--backlight"@,
        a.luminance is Some ==> conflict(a, first_conflict(a)).3 == "--luminance"@,
        a.reset_luminance ==> conflict(a, first_conflict(a)).3 == "--reset-luminance"@,
        a.left_of is Some ==> conflict(a, first_conflict(a)).3 == "--left-of"@,
        a.right_of is Some ==> conflict(a, first_conflict(a)).3 == "--right-of"@,
        a.above is Some ==> conflict(a, first_conflict(a)).3 == "--above"@,
        a.below is Some ==> conflict(a, first_conflict(a)).3 == "--below"@,
        a.same_as is Some ==> conflict(a, first_conflict(a)).3 == "--same-as"@,
{
    let pred = |k: int| conflict_applies(a, k);
    if a.mode is Some {
        crate::search::lemma_first_index(CONFLICT_COUNT as nat, pred, 6);
    }
    if a.preferred {
        crate::search::lemma_first_index(CONFLICT_COUNT as nat, pred, 7);
    }
    if a.auto_mode {
        crate::search::lemma_first_index(CONFLICT_COUNT as nat, pred, 8);
    }
    if a.refresh is Some {
        crate::search::lemma_first_index(CONFLICT_COUNT as nat, pred, 9);
    }
    if a.rotation is Some {
        crate::search::lemma_first_index(CONFLICT_COUNT as nat, pred, 10);
    }
    if a.reflect is Some {
        crate::search::lemma_first_index(CONFLICT_COUNT as nat, pred, 11);
    }
    if a.position is Some {
        crate::search::lemma_first_index(CONFLICT_COUNT as nat, pred, 12);
    }
    if a.scale is Some {
        crate::search::lemma_first_index(CONFLICT_COUNT as nat, pred, 13);
    }
    if a.color_mode is Some {
        crate::search::lemma_first_index(CONFLICT_COUNT as nat, pred, 14);
    }
    if a.primary {
        crate::search::lemma_first_index(CONFLICT_COUNT as nat, pred, 15);
    }
    if a.noprimary {
        crate::search::lemma_first_index(CONFLICT_COUNT as nat, pred, 16);
    }
    if a.brightness is Some {
        crate::search::lemma_first_index(CONFLICT_COUNT as nat, pred, 17);
    }
    if a.gamma is Some {
        crate::search::lemma_first_index(CONFLICT_COUNT as nat, pred, 18);
    }
    if a.layout_mode is Some {
        crate::search::lemma_first_index(CONFLICT_COUNT as nat, pred, 19);
    }
    if a.power_save is Some {
        crate::search::lemma_first_index(CONFLICT_COUNT as nat, pred, 20);
    }
    if a.backlight is Some {
        crate::search::lemma_first_index(CONFLICT_COUNT as nat, pred, 21);
    }
    if a.luminance is Some {
        crate::search::lemma_first_index(CONFLICT_COUNT as nat, pred, 22);
    }
    if a.reset_luminance {
        crate::search::lemma_first_index(CONFLICT_COUNT as nat, pred, 23);
    }
    if a.left_of is Some {
        crate::search::lemma_first_index(CONFLICT_COUNT as nat, pred, 34);
    }
    if a.right_of is Some {
        crate::search::lemma_first_index(CONFLICT_COUNT as nat, pred, 35);
    }
    if a.above is Some {
        crate::search::lemma_first_index(CONFLICT_COUNT as nat, pred, 36);
    }
    if a.below is Some {
        crate::search::lemma_first_index(CONFLICT_COUNT as nat, pred, 37);
    }
    if a.same_as is Some {
        crate::search::lemma_first_index(CONFLICT_COUNT as nat, pred, 38);
    }
}

/// How many of the options that take part in a conflict are given.
pub open spec fn conflicting_options_given(a: &ActionOptions) -> int {
    (if a.mode is Some { 1int } else { 0int })
        + (if a.preferred { 1int } else { 0int })
        + (if a.auto_mode { 1int } else { 0int })
        + (if a.refresh is Some { 1int } else { 0int })
        + (if a.primary { 1int } else { 0int })
        + (if a.noprimary { 1int } else { 0int })
        + (if a.off { 1int } else { 0int })
        + (if a.rotation is Some { 1int } else { 0int })
        + (if a.reflect is Some { 1int } else { 0int })
        + (if a.position is Some { 1int } else { 0int })
        + (if a.scale is Some { 1int } else { 0int })
        + (if a.color_mode is Some { 1int } else { 0int })
        + (if a.brightness is Some { 1int } else { 0int })
        + (if a.gamma is Some { 1int } else { 0int })
        + (if a.layout_mode is Some { 1int } else { 0int })
        + (if a.power_save is Some { 1int } else { 0int })
        + (if a.backlight is Some { 1int } else { 0int })
        + (if a.luminance is Some { 1int } else { 0int })
        + (if a.reset_luminance { 1int } else { 0int })
        + (if a.left_of is Some { 1int } else { 0int })
        + (if a.right_of is Some { 1int } else { 0int })
        + (if a.above is Some { 1int } else { 0int })
        + (if a.below is Some { 1int } else { 0int })
        + (if a.same_as is Some { 1int } else { 0int })
}

/// Two options given together, with no third that takes part in a conflict:
/// where they are one of the pairs that cannot be combined (each option's
/// help names them), the request is refused and the refusal names the two, in
/// the order of the pair; otherwise the request passes.
pub proof fn lemma_two_options_refused_by_name(a: &ActionOptions)
    requires
        conflicting_options_given(a) == 2,
    ensures
        a.mode is Some && a.preferred ==> first_conflict(a) < CONFLICT_COUNT && conflict(a, first_conflict(a)).1 == "--mode"@
            && conflict(a, first_conflict(a)).3 == "--preferred"@,
        a.mode is Some && a.auto_mode ==> first_conflict(a) < CONFLICT_COUNT && conflict(a, first_conflict(a)).1 == "--mode"@
            && conflict(a, first_conflict(a)).3 == "--auto"@,
        a.preferred && a.auto_mode ==> first_conflict(a) < CONFLICT_COUNT && conflict(a, first_conflict(a)).1 == "--preferred"@
            && conflict(a, first_conflict(a)).3 == "--auto"@,
        a.preferred && a.refresh is Some ==> first_conflict(a) < CONFLICT_COUNT && conflict(a, first_conflict(a)).1 == "--preferred"@
            && conflict(a, first_conflict(a)).3 == "--refresh"@,
        a.auto_mode && a.refresh is Some ==> first_conflict(a) < CONFLICT_COUNT && conflict(a, first_conflict(a)).1 == "--auto"@
            && conflict(a, first_conflict(a)).3 == "--refresh"@,
        a.primary && a.noprimary ==> first_conflict(a) < CONFLICT_COUNT && conflict(a, first_conflict(a)).1 == "--primary"@
            && conflict(a, first_conflict(a)).3 == "--noprimary"@,
        a.off && a.mode is Some ==> first_conflict(a) < CONFLICT_COUNT && conflict(a, first_conflict(a)).1 == "--off"@
            && conflict(a, first_conflict(a)).3 == "--mode"@,
        a.off && a.preferred ==> first_conflict(a) < CONFLICT_COUNT && conflict(a, first_conflict(a)).1 == "--off"@
            && conflict(a, first_conflict(a)).3 == "--preferred"@,
        a.off && a.auto_mode ==> first_conflict(a) < CONFLICT_COUNT && conflict(a, first_conflict(a)).1 == "--off"@
            && conflict(a, first_conflict(a)).3 == "--auto"@,
        a.off && a.refresh is Some ==> first_conflict(a) < CONFLICT_COUNT && conflict(a, first_conflict(a)).1 == "--off"@
            && conflict(a, first_conflict(a)).3 == "--refresh"@,
        a.off && a.rotation is Some ==> first_conflict(a) < CONFLICT_COUNT && conflict(a, first_conflict(a)).1 == "--off"@
            && conflict(a, first_conflict(a)).3 == "--rotate"@,
        a.off && a.reflect is Some ==> first_conflict(a) < CONFLICT_COUNT && conflict(a, first_conflict(a)).1 == "--off"@
            && conflict(a, first_conflict(a)).3 == "--reflect"@,
        a.off && a.position is Some ==> first_conflict(a) < CONFLICT_COUNT && conflict(a, first_conflict(a)).1 == "--off"@
            && conflict(a, first_conflict(a)).3 == "--position"@,
        a.off && a.scale is Some ==> first_conflict(a) < CONFLICT_COUNT && conflict(a, first_conflict(a)).1 == "--off"@
            && conflict(a, first_conflict(a)).3 == "--scale"@,
        a.off && a.color_mode is Some ==> first_conflict(a) < CONFLICT_COUNT && conflict(a, first_conflict(a)).1 == "--off"@
            && conflict(a, first_conflict(a)).3 == "--color-mode"@,
        a.off && a.primary ==> first_conflict(a) < CONFLICT_COUNT && conflict(a, first_conflict(a)).1 == "--off"@
            && conflict(a, first_conflict(a)).3 == "--primary"@,
        a.off && a.noprimary ==> first_conflict(a) < CONFLICT_COUNT && conflict(a, first_conflict(a)).1 == "--off"@
            && conflict(a, first_conflict(a)).3 == "--noprimary"@,
        a.off && a.brightness is Some ==> first_conflict(a) < CONFLICT_COUNT && conflict(a, first_conflict(a)).1 == "--off"@
            && conflict(a, first_conflict(a)).3 == "--brightness"@,
        a.off && a.gamma is Some ==> first_conflict(a) < CONFLICT_COUNT && conflict(a, first_conflict(a)).1 == "--off"@
            && conflict(a, first_conflict(a)).3 == "--gamma"@,
        a.off && a.layout_mode is Some ==> first_conflict(a) < CONFLICT_COUNT && conflict(a, first_conflict(a)).1 == "--off"@
            && conflict(a, first_conflict(a)).3 == "--layout-mode"@,
        a.off && a.power_save is Some ==> first_conflict(a) < CONFLICT_COUNT && conflict(a, first_conflict(a)).1 == "--off"@
            && conflict(a, first_conflict(a)).3 == "--power-save"@,
        a.off && a.backlight is Some ==> first_conflict(a) < CONFLICT_COUNT && conflict(a, first_conflict(a)).1 == "--off"@
            && conflict(a, first_conflict(a)).3 == "--backlight"@,
        a.off && a.luminance is Some ==> first_conflict(a) < CONFLICT_COUNT && conflict(a, first_conflict(a)).1 == "--off"@
            && conflict(a, first_conflict(a)).3 == "--luminance"@,
        a.off && a.reset_luminance ==> first_conflict(a) < CONFLICT_COUNT && conflict(a, first_conflict(a)).1 == "--off"@
            && conflict(a, first_conflict(a)).3 == "--reset-luminance"@,
        a.position is Some && a.left_of is Some ==> first_conflict(a) < CONFLICT_COUNT && conflict(a, first_conflict(a)).1 == "--position"@
            && conflict(a, first_conflict(a)).3 == "--left-of"@,
        a.position is Some && a.right_of is Some ==> first_conflict(a) < CONFLICT_COUNT && conflict(a, first_conflict(a)).1 == "--position"@
            && conflict(a, first_conflict(a)).3 == "--right-of"@,
        a.position is Some && a.above is Some ==> first_conflict(a) < CONFLICT_COUNT && conflict(a, first_conflict(a)).1 == "--position"@
            && conflict(a, first_conflict(a)).3 == "--above"@,
        a.position is Some && a.below is Some ==> first_conflict(a) < CONFLICT_COUNT && conflict(a, first_conflict(a)).1 == "--position"@
            && conflict(a, first_conflict(a)).3 == "--below"@,
        a.left_of is Some && a.right_of is Some ==> first_conflict(a) < CONFLICT_COUNT && conflict(a, first_conflict(a)).1 == "--left-of"@
            && conflict(a, first_conflict(a)).3 == "--right-of"@,
        a.left_of is Some && a.above is Some ==> first_conflict(a) < CONFLICT_COUNT && conflict(a, first_conflict(a)).1 == "--left-of"@
            && conflict(a, first_conflict(a)).3 == "--above"@,
        a.left_of is Some && a.below is Some ==> first_conflict(a) < CONFLICT_COUNT && conflict(a, first_conflict(a)).1 == "--left-of"@
            && conflict(a, first_conflict(a)).3 == "--below"@,
        a.right_of is Some && a.above is Some ==> first_conflict(a) < CONFLICT_COUNT && conflict(a, first_conflict(a)).1 == "--right-of"@
            && conflict(a, first_conflict(a)).3 == "--above"@,
        a.right_of is Some && a.below is Some ==> first_conflict(a) < CONFLICT_COUNT && conflict(a, first_conflict(a)).1 == "--right-of"@
            && conflict(a, first_conflict(a)).3 == "--below"@,
        a.above is Some && a.below is Some ==> first_conflict(a) < CONFLICT_COUNT && conflict(a, first_conflict(a)).1 == "--above"@
            && conflict(a, first_conflict(a)).3 == "--below"@,
        a.off && a.left_of is Some ==> first_conflict(a) < CONFLICT_COUNT && conflict(a, first_conflict(a)).1 == "--off"@
            && conflict(a, first_conflict(a)).3 == "--left-of"@,
        a.off && a.right_of is Some ==> first_conflict(a) < CONFLICT_COUNT && conflict(a, first_conflict(a)).1 == "--off"@
            && conflict(a, first_conflict(a)).3 == "--right-of"@,
        a.off && a.above is Some ==> first_conflict(a) < CONFLICT_COUNT && conflict(a, first_conflict(a)).1 == "--off"@
            && conflict(a, first_conflict(a)).3 == "--above"@,
        a.off && a.below is Some ==> first_conflict(a) < CONFLICT_COUNT && conflict(a, first_conflict(a)).1 == "--off"@
            && conflict(a, first_conflict(a)).3 == "--below"@,
        a.off && a.same_as is Some ==> first_conflict(a) < CONFLICT_COUNT && conflict(a, first_conflict(a)).1 == "--off"@
            && conflict(a, first_conflict(a)).3 == "--same-as"@,
        a.same_as is Some && a.mode is Some ==> first_conflict(a) < CONFLICT_COUNT && conflict(a, first_conflict(a)).1 == "--same-as"@
            && conflict(a, first_conflict(a)).3 == "--mode"@,
        a.same_as is Some && a.preferred ==> first_conflict(a) < CONFLICT_COUNT && conflict(a, first_conflict(a)).1 == "--same-as"@
            && conflict(a, first_conflict(a)).3 == "--preferred"@,
        a.same_as is Some && a.auto_mode ==> first_conflict(a) < CONFLICT_COUNT && conflict(a, first_conflict(a)).1 == "--same-as"@
            && conflict(a, first_conflict(a)).3 == "--auto"@,
        a.same_as is Some && a.refresh is Some ==> first_conflict(a) < CONFLICT_COUNT && conflict(a, first_conflict(a)).1 == "--same-as"@
            && conflict(a, first_conflict(a)).3 == "--refresh"@,
        a.same_as is Some && a.rotation is Some ==> first_conflict(a) < CONFLICT_COUNT && conflict(a, first_conflict(a)).1 == "--same-as"@
            && conflict(a, first_conflict(a)).3 == "--rotate"@,
        a.same_as is Some && a.reflect is Some ==> first_conflict(a) < CONFLICT_COUNT && conflict(a, first_conflict(a)).1 == "--same-as"@
            && conflict(a, first_conflict(a)).3 == "--reflect"@,
        a.same_as is Some && a.position is Some ==> first_conflict(a) < CONFLICT_COUNT && conflict(a, first_conflict(a)).1 == "--same-as"@
            && conflict(a, first_conflict(a)).3 == "--position"@,
        a.same_as is Some && a.left_of is Some ==> first_conflict(a) < CONFLICT_COUNT && conflict(a, first_conflict(a)).1 == "--same-as"@
            && conflict(a, first_conflict(a)).3 == "--left-of"@,
        a.same_as is Some && a.right_of is Some ==> first_conflict(a) < CONFLICT_COUNT && conflict(a, first_conflict(a)).1 == "--same-as"@
            && conflict(a, first_conflict(a)).3 == "--right-of"@,
        a.same_as is Some && a.above is Some ==> first_conflict(a) < CONFLICT_COUNT && conflict(a, first_conflict(a)).1 == "--same-as"@
            && conflict(a, first_conflict(a)).3 == "--above"@,
        a.same_as is Some && a.below is Some ==> first_conflict(a) < CONFLICT_COUNT && conflict(a, first_conflict(a)).1 == "--same-as"@
            && conflict(a, first_conflict(a)).3 == "--below"@,
        a.same_as is Some && a.scale is Some ==> first_conflict(a) < CONFLICT_COUNT && conflict(a, first_conflict(a)).1 == "--same-as"@
            && conflict(a, first_conflict(a)).3 == "--scale"@,
        a.same_as is Some && a.color_mode is Some ==> first_conflict(a) < CONFLICT_COUNT && conflict(a, first_conflict(a)).1 == "--same-as"@
            && conflict(a, first_conflict(a)).3 == "--color-mode"@,
        a.same_as is Some && a.backlight is Some ==> first_conflict(a) < CONFLICT_COUNT && conflict(a, first_conflict(a)).1 == "--same-as"@
            && conflict(a, first_conflict(a)).3 == "--backlight"@,
        a.same_as is Some && a.luminance is Some ==> first_conflict(a) < CONFLICT_COUNT && conflict(a, first_conflict(a)).1 == "--same-as"@
            && conflict(a, first_conflict(a)).3 == "--luminance"@,
        a.same_as is Some && a.reset_luminance ==> first_conflict(a) < CONFLICT_COUNT && conflict(a, first_conflict(a)).1 == "--same-as"@
            && conflict(a, first_conflict(a)).3 == "--reset-luminance"@,
        a.luminance is Some && a.reset_luminance ==> first_conflict(a) < CONFLICT_COUNT && conflict(a, first_conflict(a)).1 == "--luminance"@
            && conflict(a, first_conflict(a)).3 == "--reset-luminance"@,
        !((a.mode is Some && a.preferred) || (a.mode is Some && a.auto_mode) || (a.preferred && a.auto_mode) || (a.preferred && a.refresh is Some) || (a.auto_mode && a.refresh is Some) || (a.primary && a.noprimary) || (a.off && a.mode is Some) || (a.off && a.preferred) || (a.off && a.auto_mode) || (a.off && a.refresh is Some) || (a.off && a.rotation is Some) || (a.off && a.reflect is Some) || (a.off && a.position is Some) || (a.off && a.scale is Some) || (a.off && a.color_mode is Some) || (a.off && a.primary) || (a.off && a.noprimary) || (a.off && a.brightness is Some) || (a.off && a.gamma is Some) || (a.off && a.layout_mode is Some) || (a.off && a.power_save is Some) || (a.off && a.backlight is Some) || (a.off && a.luminance is Some) || (a.off && a.reset_luminance) || (a.position is Some && a.left_of is Some) || (a.position is Some && a.right_of is Some) || (a.position is Some && a.above is Some) || (a.position is Some && a.below is Some) || (a.left_of is Some && a.right_of is Some) || (a.left_of is Some && a.above is Some) || (a.left_of is Some && a.below is Some) || (a.right_of is Some && a.above is Some) || (a.right_of is Some && a.below is Some) || (a.above is Some && a.below is Some) || (a.off && a.left_of is Some) || (a.off && a.right_of is Some) || (a.off && a.above is Some) || (a.off && a.below is Some) || (a.off && a.same_as is Some) || (a.same_as is Some && a.mode is Some) || (a.same_as is Some && a.preferred) || (a.same_as is Some && a.auto_mode) || (a.same_as is Some && a.refresh is Some) || (a.same_as is Some && a.rotation is Some) || (a.same_as is Some && a.reflect is Some) || (a.same_as is Some && a.position is Some) || (a.same_as is Some && a.left_of is Some) || (a.same_as is Some && a.right_of is Some) || (a.same_as is Some && a.above is Some) || (a.same_as is Some && a.below is Some) || (a.same_as is Some && a.scale is Some) || (a.same_as is Some && a.color_mode is Some) || (a.same_as is Some && a.backlight is Some) || (a.same_as is Some && a.luminance is Some) || (a.same_as is Some && a.reset_luminance) || (a.luminance is Some && a.reset_luminance)) ==> first_conflict(a) == CONFLICT_COUNT,
{
    let pred = |k: int| conflict_applies(a, k);
    if a.mode is Some && a.preferred {
        crate::search::lemma_first_index(CONFLICT_COUNT as nat, pred, 0);
    }
    if a.mode is Some && a.auto_mode {
        crate::search::lemma_first_index(CONFLICT_COUNT as nat, pred, 1);
    }
    if a.preferred && a.auto_mode {
        crate::search::lemma_first_index(CONFLICT_COUNT as nat, pred, 2);
    }
    if a.preferred && a.refresh is Some {
        crate::search::lemma_first_index(CONFLICT_COUNT as nat, pred, 3);
    }
    if a.auto_mode && a.refresh is Some {
        crate::search::lemma_first_index(CONFLICT_COUNT as nat, pred, 4);
    }
    if a.primary && a.noprimary {
        crate::search::lemma_first_index(CONFLICT_COUNT as nat, pred, 5);
    }
    if a.off && a.mode is Some {
        crate::search::lemma_first_index(CONFLICT_COUNT as nat, pred, 6);
    }
    if a.off && a.preferred {
        crate::search::lemma_first_index(CONFLICT_COUNT as nat, pred, 7);
    }
    if a.off && a.auto_mode {
        crate::search::lemma_first_index(CONFLICT_COUNT as nat, pred, 8);
    }
    if a.off && a.refresh is Some {
        crate::search::lemma_first_index(CONFLICT_COUNT as nat, pred, 9);
    }
    if a.off && a.rotation is Some {
        crate::search::lemma_first_index(CONFLICT_COUNT as nat, pred, 10);
    }
    if a.off && a.reflect is Some {
        crate::search::lemma_first_index(CONFLICT_COUNT as nat, pred, 11);
    }
    if a.off && a.position is Some {
        crate::search::lemma_first_index(CONFLICT_COUNT as nat, pred, 12);
    }
    if a.off && a.scale is Some {
        crate::search::lemma_first_index(CONFLICT_COUNT as nat, pred, 13);
    }
    if a.off && a.color_mode is Some {
        crate::search::lemma_first_index(CONFLICT_COUNT as nat, pred, 14);
    }
    if a.off && a.primary {
        crate::search::lemma_first_index(CONFLICT_COUNT as nat, pred, 15);
    }
    if a.off && a.noprimary {
        crate::search::lemma_first_index(CONFLICT_COUNT as nat, pred, 16);
    }
    if a.off && a.brightness is Some {
        crate::search::lemma_first_index(CONFLICT_COUNT as nat, pred, 17);
    }
    if a.off && a.gamma is Some {
        crate::search::lemma_first_index(CONFLICT_COUNT as nat, pred, 18);
    }
    if a.off && a.layout_mode is Some {
        crate::search::lemma_first_index(CONFLICT_COUNT as nat, pred, 19);
    }
    if a.off && a.power_save is Some {
        crate::search::lemma_first_index(CONFLICT_COUNT as nat, pred, 20);
    }
    if a.off && a.backlight is Some {
        crate::search::lemma_first_index(CONFLICT_COUNT as nat, pred, 21);
    }
    if a.off && a.luminance is Some {
        crate::search::lemma_first_index(CONFLICT_COUNT as nat, pred, 22);
    }
    if a.off && a.reset_luminance {
        crate::search::lemma_first_index(CONFLICT_COUNT as nat, pred, 23);
    }
    if a.position is Some && a.left_of is Some {
        crate::search::lemma_first_index(CONFLICT_COUNT as nat, pred, 24);
    }
    if a.position is Some && a.right_of is Some {
        crate::search::lemma_first_index(CONFLICT_COUNT as nat, pred, 25);
    }
    if a.position is Some && a.above is Some {
        crate::search::lemma_first_index(CONFLICT_COUNT as nat, pred, 26);
    }
    if a.position is Some && a.below is Some {
        crate::search::lemma_first_index(CONFLICT_COUNT as nat, pred, 27);
    }
    if a.left_of is Some && a.right_of is Some {
        crate::search::lemma_first_index(CONFLICT_COUNT as nat, pred, 28);
    }
    if a.left_of is Some && a.above is Some {
        crate::search::lemma_first_index(CONFLICT_COUNT as nat, pred, 29);
    }
    if a.left_of is Some && a.below is Some {
        crate::search::lemma_first_index(CONFLICT_COUNT as nat, pred, 30);
    }
    if a.right_of is Some && a.above is Some {
        crate::search::lemma_first_index(CONFLICT_COUNT as nat, pred, 31);
    }
    if a.right_of is Some && a.below is Some {
        crate::search::lemma_first_index(CONFLICT_COUNT as nat, pred, 32);
    }
    if a.above is Some && a.below is Some {
        crate::search::lemma_first_index(CONFLICT_COUNT as nat, pred, 33);
    }
    if a.off && a.left_of is Some {
        crate::search::lemma_first_index(CONFLICT_COUNT as nat, pred, 34);
    }
    if a.off && a.right_of is Some {
        crate::search::lemma_first_index(CONFLICT_COUNT as nat, pred, 35);
    }
    if a.off && a.above is Some {
        crate::search::lemma_first_index(CONFLICT_COUNT as nat, pred, 36);
    }
    if a.off && a.below is Some {
        crate::search::lemma_first_index(CONFLICT_COUNT as nat, pred, 37);
    }
    if a.off && a.same_as is Some {
        crate::search::lemma_first_index(CONFLICT_COUNT as nat, pred, 38);
    }
    if a.same_as is Some && a.mode is Some {
        crate::search::lemma_first_index(CONFLICT_COUNT as nat, pred, 39);
    }
    if a.same_as is Some && a.preferred {
        crate::search::lemma_first_index(CONFLICT_COUNT as nat, pred, 40);
    }
    if a.same_as is Some && a.auto_mode {
        crate::search::lemma_first_index(CONFLICT_COUNT as nat, pred, 41);
    }
    if a.same_as is Some && a.refresh is Some {
        crate::search::lemma_first_index(CONFLICT_COUNT as nat, pred, 42);
    }
    if a.same_as is Some && a.rotation is Some {
        crate::search::lemma_first_index(CONFLICT_COUNT as nat, pred, 43);
    }
    if a.same_as is Some && a.reflect is Some {
        crate::search::lemma_first_index(CONFLICT_COUNT as nat, pred, 44);
    }
    if a.same_as is Some && a.position is Some {
        crate::search::lemma_first_index(CONFLICT_COUNT as nat, pred, 45);
    }
    if a.same_as is Some && a.left_of is Some {
        crate::search::lemma_first_index(CONFLICT_COUNT as nat, pred, 46);
    }
    if a.same_as is Some && a.right_of is Some {
        crate::search::lemma_first_index(CONFLICT_COUNT as nat, pred, 47);
    }
    if a.same_as is Some && a.above is Some {
        crate::search::lemma_first_index(CONFLICT_COUNT as nat, pred, 48);
    }
    if a.same_as is Some && a.below is Some {
        crate::search::lemma_first_index(CONFLICT_COUNT as nat, pred, 49);
    }
    if a.same_as is Some && a.scale is Some {
        crate::search::lemma_first_index(CONFLICT_COUNT as nat, pred, 50);
    }
    if a.same_as is Some && a.color_mode is Some {
        crate::search::lemma_first_index(CONFLICT_COUNT as nat, pred, 51);
    }
    if a.same_as is Some && a.backlight is Some {
        crate::search::lemma_first_index(CONFLICT_COUNT as nat, pred, 52);
    }
    if a.same_as is Some && a.luminance is Some {
        crate::search::lemma_first_index(CONFLICT_COUNT as nat, pred, 53);
    }
    if a.same_as is Some && a.reset_luminance {
        crate::search::lemma_first_index(CONFLICT_COUNT as nat, pred, 54);
    }
    if a.luminance is Some && a.reset_luminance {
        crate::search::lemma_first_index(CONFLICT_COUNT as nat, pred, 55);
    }
    if !((a.mode is Some && a.preferred) || (a.mode is Some && a.auto_mode) || (a.preferred && a.auto_mode) || (a.preferred && a.refresh is Some) || (a.auto_mode && a.refresh is Some) || (a.primary && a.noprimary) || (a.off && a.mode is Some) || (a.off && a.preferred) || (a.off && a.auto_mode) || (a.off && a.refresh is Some) || (a.off && a.rotation is Some) || (a.off && a.reflect is Some) || (a.off && a.position is Some) || (a.off && a.scale is Some) || (a.off && a.color_mode is Some) || (a.off && a.primary) || (a.off && a.noprimary) || (a.off && a.brightness is Some) || (a.off && a.gamma is Some) || (a.off && a.layout_mode is Some) || (a.off && a.power_save is Some) || (a.off && a.backlight is Some) || (a.off && a.luminance is Some) || (a.off && a.reset_luminance) || (a.position is Some && a.left_of is Some) || (a.position is Some && a.right_of is Some) || (a.position is Some && a.above is Some) || (a.position is Some && a.below is Some) || (a.left_of is Some && a.right_of is Some) || (a.left_of is Some && a.above is Some) || (a.left_of is Some && a.below is Some) || (a.right_of is Some && a.above is Some) || (a.right_of is Some && a.below is Some) || (a.above is Some && a.below is Some) || (a.off && a.left_of is Some) || (a.off && a.right_of is Some) || (a.off && a.above is Some) || (a.off && a.below is Some) || (a.off && a.same_as is Some) || (a.same_as is Some && a.mode is Some) || (a.same_as is Some && a.preferred) || (a.same_as is Some && a.auto_mode) || (a.same_as is Some && a.refresh is Some) || (a.same_as is Some && a.rotation is Some) || (a.same_as is Some && a.reflect is Some) || (a.same_as is Some && a.position is Some) || (a.same_as is Some && a.left_of is Some) || (a.same_as is Some && a.right_of is Some) || (a.same_as is Some && a.above is Some) || (a.same_as is Some && a.below is Some) || (a.same_as is Some && a.scale is Some) || (a.same_as is Some && a.color_mode is Some) || (a.same_as is Some && a.backlight is Some) || (a.same_as is Some && a.luminance is Some) || (a.same_as is Some && a.reset_luminance) || (a.luminance is Some && a.reset_luminance)) {
        crate::search::lemma_first_index(CONFLICT_COUNT as nat, pred, CONFLICT_COUNT as int);
    }
}

// ---------------------------------------------------------------------------
// Option parsers
// ---------------------------------------------------------------------------

/// `prefix` followed by `value`.
pub fn message_with(prefix: &str, value: &str) -> (r: String)
    ensures
        r@ == prefix@ + value@,
{
    let mut r = prefix.to_owned();
    crate::text::push_str(&mut r, value);
    r
}

/// Parses `--power-save`: a mode name other than `unknown`.
pub fn parse_power_save_mode(value: &str) -> (r: Result<PowerSaveMode, String>)
    ensures
        r matches Ok(m) ==> PowerSaveMode::spec_from_name(value@) == Some(m) && m
            != PowerSaveMode::Unknown,
        r matches Err(message) ==> match PowerSaveMode::spec_from_name(value@) {
            None => message@ == "invalid power save mode: "@ + value@,
            Some(m) => m == PowerSaveMode::Unknown && message@
                == "power-save mode must be on, standby, suspend, or off"@,
        },
{
    match PowerSaveMode::from_name(value) {
        None => Err(message_with("invalid power save mode: ", value)),
        Some(PowerSaveMode::Unknown) => Err(
            "power-save mode must be on, standby, suspend, or off".to_owned(),
        ),
        Some(mode) => Ok(mode),
    }
}

/// Parses `--layout-mode`.
pub fn parse_layout_mode(value: &str) -> (r: Result<LayoutMode, String>)
    ensures
        r matches Ok(m) ==> LayoutMode::spec_from_name(value@) == Some(m),
        r matches Err(message) ==> LayoutMode::spec_from_name(value@) is None && message@
            == "invalid layout mode: "@ + value@,
{
    match LayoutMode::from_name(value) {
        Some(mode) => Ok(mode),
        None => Err(message_with("invalid layout mode: ", value)),
    }
}

/// Parses `--color-mode`.
pub fn parse_color_mode(value: &str) -> (r: Result<ColorMode, String>)
    ensures
        r matches Ok(m) ==> ColorMode::spec_from_name(value@) == Some(m),
        r matches Err(message) ==> ColorMode::spec_from_name(value@) is None && message@
            == "invalid color mode: "@ + value@,
{
    match ColorMode::from_name(value) {
        Some(mode) => Ok(mode),
        None => Err(message_with("invalid color mode: ", value)),
    }
}

/// Whether any option that acts on one output is given.
pub open spec fn per_output_spec(a: &ActionOptions) -> bool {
    a.rotation is Some || a.reflect is Some || a.mode is Some || a.preferred || a.auto_mode
        || a.refresh is Some || a.primary || a.noprimary || a.off || a.position is Some
        || a.color_mode is Some || a.backlight is Some || a.luminance is Some
        || a.reset_luminance || a.same_as is Some || a.left_of is Some || a.right_of is Some
        || a.above is Some || a.below is Some || a.scale is Some || a.brightness is Some
        || a.gamma is Some
}

pub fn per_output_actions_requested(actions: &ActionOptions) -> (r: bool)
    ensures
        r == per_output_spec(actions),
{
    actions.rotation.is_some() || actions.reflect.is_some() || actions.mode.is_some()
        || actions.preferred || actions.auto_mode || actions.refresh.is_some() || actions.primary
        || actions.noprimary || actions.off || actions.position.is_some()
        || actions.color_mode.is_some() || actions.backlight.is_some()
        || actions.luminance.is_some() || actions.reset_luminance || actions.same_as.is_some()
        || actions.left_of.is_some() || actions.right_of.is_some() || actions.above.is_some()
        || actions.below.is_some() || actions.scale.is_some() || actions.brightness.is_some()
        || actions.gamma.is_some()
}

// ---------------------------------------------------------------------------
// Transforms
// ---------------------------------------------------------------------------

/// The transform of a plain rotation: `right` is a quarter turn clockwise.
pub open spec fn rotation_transform_spec(rotation: Rotation) -> u32 {
    match rotation {
        Rotation::Normal => 0,
        Rotation::Left => 3,
        Rotation::Right => 1,
        Rotation::Inverted => 2,
    }
}

pub fn rotation_transform(rotation: Rotation) -> (r: u32)
    ensures
        r == rotation_transform_spec(rotation),
{
    match rotation {
        Rotation::Normal => TRANSFORM_NORMAL,
        Rotation::Left => TRANSFORM_R270,
        Rotation::Right => TRANSFORM_R90,
        Rotation::Inverted => TRANSFORM_R180,
    }
}

/// The rotation of a transform turned by half a turn.
pub open spec fn rotate_180_spec(transform: u32) -> u32 {
    ((rotation_of(transform) + 2) % 4) as u32
}

pub fn rotate_180(transform: u32) -> (r: u32)
    ensures
        r == rotate_180_spec(transform),
{
    (rotation_bits(transform) + 2) % 4
}

/// The reflection that a transform shows: none without the flip bit, `x` when
/// flipped at a half or three-quarter turn, `y` otherwise.
pub open spec fn reflection_of(transform: u32) -> Reflection {
    if !is_flipped(transform) {
        Reflection::Normal
    } else if rotation_of(transform) == 2 || rotation_of(transform) == 3 {
        Reflection::X
    } else {
        Reflection::Y
    }
}

pub fn reflection_from_transform(transform: u32) -> (r: Reflection)
    ensures
        r == reflection_of(transform),
{
    if !flipped(transform) {
        Reflection::Normal
    } else {
        let bits = rotation_bits(transform);
        if bits == TRANSFORM_R180 || bits == TRANSFORM_R270 {
            Reflection::X
        } else {
            Reflection::Y
        }
    }
}

/// The transform for a rotation and a reflection: `y` flips, `x` flips after a
/// half turn, `xy` is a half turn.
pub open spec fn transform_for(rotation: Rotation, reflection: Reflection) -> u32 {
    let r = rotation_transform_spec(rotation);
    match reflection {
        Reflection::Normal => r,
        Reflection::Y => (r + 4) as u32,
        Reflection::X => (rotate_180_spec(r) + 4) as u32,
        Reflection::XY => rotate_180_spec(r),
    }
}

pub fn transform_from_rotation_and_reflection(rotation: Rotation, reflection: Reflection) -> (r:
    u32)
    ensures
        r == transform_for(rotation, reflection),
{
    let rotation = rotation_transform(rotation);
    match reflection {
        Reflection::Normal => rotation,
        Reflection::Y => with_flip(rotation),
        Reflection::X => with_flip(rotate_180(rotation)),
        Reflection::XY => rotate_180(rotation),
    }
}

/// The rotation of a transform's rotation bits.
pub open spec fn rotation_of_transform(transform: u32) -> Rotation {
    if rotation_of(transform) == 1 {
        Rotation::Right
    } else if rotation_of(transform) == 2 {
        Rotation::Inverted
    } else if rotation_of(transform) == 3 {
        Rotation::Left
    } else {
        Rotation::Normal
    }
}

/// The transform that `--rotate` and `--reflect` ask for, taking what is not
/// given from the current transform (the rotation from its rotation bits, the
/// reflection as `reflection_of` names it); `None` when neither is given.
pub open spec fn effective_transform_spec(
    current: u32,
    rotation: Option<Rotation>,
    reflection: Option<Reflection>,
) -> Option<u32> {
    if rotation is None && reflection is None {
        None
    } else {
        let r = match rotation {
            Some(r) => r,
            None => rotation_of_transform(current),
        };
        let f = match reflection {
            Some(f) => f,
            None => reflection_of(current),
        };
        Some(transform_for(r, f))
    }
}

pub fn effective_transform(
    current_transform: u32,
    rotation: Option<Rotation>,
    reflection: Option<Reflection>,
) -> (r: Option<u32>)
    ensures
        r == effective_transform_spec(current_transform, rotation, reflection),
{
    if rotation.is_none() && reflection.is_none() {
        return None;
    }
    let bits = rotation_bits(current_transform);
    let current_rotation = if bits == TRANSFORM_R90 {
        Rotation::Right
    } else if bits == TRANSFORM_R180 {
        Rotation::Inverted
    } else if bits == TRANSFORM_R270 {
        Rotation::Left
    } else {
        Rotation::Normal
    };
    let r = match rotation {
        Some(r) => r,
        None => current_rotation,
    };
    let f = match reflection {
        Some(f) => f,
        None => reflection_from_transform(current_transform),
    };
    Some(transform_from_rotation_and_reflection(r, f))
}

/// Whether a transform turns by a quarter or three quarters.
pub open spec fn swaps_axes(transform: u32) -> bool {
    rotation_of(transform) == 1 || rotation_of(transform) == 3
}

pub fn transform_swaps_axes(transform: u32) -> (r: bool)
    ensures
        r == swaps_axes(transform),
{
    let bits = rotation_bits(transform);
    bits == TRANSFORM_R90 || bits == TRANSFORM_R270
}

/// Reading a transform's rotation bits and reflection and setting it again
/// from them gives the transform back for the transforms below 6; transforms
/// 6 and 7, whose `x` reflection turns half a turn itself, come back as 4 and 5.
pub proof fn lemma_transform_roundtrip(transform: u32)
    requires
        transform < 8,
    ensures
        transform < 6 ==> transform_for(rotation_of_transform(transform), reflection_of(transform))
            == transform,
        transform >= 6 ==> transform_for(rotation_of_transform(transform), reflection_of(transform))
            == transform - 2,
{
}

// ---------------------------------------------------------------------------
// Color modes, layout mode, native controls
// ---------------------------------------------------------------------------

/// The color modes a monitor advertises, read with `as u32` and without the
/// values that name no color mode.
pub open spec fn supported_color_modes_spec(raw: Seq<u64>) -> Seq<ColorMode>
    decreases raw.len(),
{
    if raw.len() == 0 {
        Seq::empty()
    } else {
        let rest = supported_color_modes_spec(raw.drop_last());
        match ColorMode::spec_from_raw(truncate_u32(raw.last())) {
            Some(m) => rest.push(m),
            None => rest,
        }
    }
}

pub fn supported_color_modes(physical_monitor: &PhysicalMonitor) -> (r: Vec<ColorMode>)
    ensures
        r@ == supported_color_modes_spec(physical_monitor.supported_color_modes@),
{
    let raw = &physical_monitor.supported_color_modes;
    let mut r: Vec<ColorMode> = Vec::new();
    let mut i: usize = 0;
    while i < raw.len()
        invariant
            0 <= i <= raw@.len(),
            r@ == supported_color_modes_spec(raw@.take(i as int)),
        decreases raw@.len() - i,
    {
        assert(raw@.take(i + 1).drop_last() == raw@.take(i as int));
        assert(raw@.take(i + 1).last() == raw@[i as int]);
        let value = crate::display_config::proxied_methods::truncate_to_u32(raw[i]);
        if let Some(mode) = ColorMode::from_raw(value) {
            r.push(mode);
        }
        i = i + 1;
    }
    assert(raw@.take(raw@.len() as int) == raw@);
    r
}

/// The monitor's current color mode, read with `as u32`.
pub open spec fn current_color_mode_spec(physical_monitor: &PhysicalMonitor) -> Option<ColorMode> {
    match physical_monitor.color_mode {
        Some(v) => ColorMode::spec_from_raw(truncate_u32(v)),
        None => None,
    }
}

pub fn current_color_mode(physical_monitor: &PhysicalMonitor) -> (r: Option<ColorMode>)
    ensures
        r == current_color_mode_spec(physical_monitor),
{
    match physical_monitor.color_mode {
        Some(v) => ColorMode::from_raw(crate::display_config::proxied_methods::truncate_to_u32(v)),
        None => None,
    }
}

pub fn contains_color_mode(modes: &Vec<ColorMode>, mode: ColorMode) -> (r: bool)
    ensures
        r == modes@.contains(mode),
{
    let mut i: usize = 0;
    while i < modes.len()
        invariant
            0 <= i <= modes@.len(),
            forall|j: int| 0 <= j < i ==> modes@[j] != mode,
        decreases modes@.len() - i,
    {
        if modes[i] == mode {
            assert(modes@[i as int] == mode);
            return true;
        }
        i = i + 1;
    }
    false
}

/// Checks a requested color mode against what the monitor advertises.
pub fn resolve_color_mode_request(
    connector: &str,
    physical_monitor: &PhysicalMonitor,
    requested: Option<ColorMode>,
) -> (r: Result<Option<ColorMode>, Error>)
    ensures
        requested is None ==> r matches Ok(None),
        requested matches Some(m) ==> {
            let supported = supported_color_modes_spec(physical_monitor.supported_color_modes@);
            &&& supported.len() == 0 ==> (r matches Err(Error::ColorModeUnsupported { connector: c })
                && c@ == connector@)
            &&& supported.len() > 0 && !supported.contains(m) ==> (r matches Err(
                Error::ColorModeUnavailable { connector: c, requested: q, supported: s },
            ) && c@ == connector@ && q == m && s@ == supported)
            &&& supported.contains(m) ==> r == Ok::<Option<ColorMode>, Error>(Some(m))
        },
{
    let requested = match requested {
        Some(requested) => requested,
        None => return Ok(None),
    };
    let supported = supported_color_modes(physical_monitor);
    if supported.len() == 0 {
        return Err(Error::ColorModeUnsupported { connector: connector.to_owned() });
    }
    if !contains_color_mode(&supported, requested) {
        return Err(
            Error::ColorModeUnavailable { connector: connector.to_owned(), requested, supported },
        );
    }
    Ok(Some(requested))
}

/// The color mode whose luminance `--luminance` or `--reset-luminance` sets:
/// the one requested, or else the current one, checked against what the
/// monitor advertises.
pub open spec fn luminance_mode_result(
    r: Result<ColorMode, Error>,
    connector: Seq<char>,
    physical_monitor: &PhysicalMonitor,
    requested: Option<ColorMode>,
) -> bool {
    let wanted = if requested is Some {
        requested
    } else {
        current_color_mode_spec(physical_monitor)
    };
    let supported = supported_color_modes_spec(physical_monitor.supported_color_modes@);
    match wanted {
        None => r matches Err(Error::LuminanceUnsupported { connector: c }) && c@ == connector,
        Some(m) => {
            &&& supported.len() == 0 ==> (r matches Err(Error::ColorModeUnsupported { connector: c }) && c@
                == connector)
            &&& supported.len() > 0 && !supported.contains(m) ==> (r matches Err(
                Error::ColorModeUnavailable { connector: c, requested: q, supported: s },
            ) && c@ == connector && q == m && s@ == supported)
            &&& supported.contains(m) ==> r == Ok::<ColorMode, Error>(m)
        },
    }
}

pub fn resolve_luminance_color_mode(
    connector: &str,
    physical_monitor: &PhysicalMonitor,
    requested: Option<ColorMode>,
) -> (r: Result<ColorMode, Error>)
    ensures
        luminance_mode_result(r, connector@, physical_monitor, requested),
{
    let requested = match requested {
        Some(m) => Some(m),
        None => current_color_mode(physical_monitor),
    };
    match requested {
        Some(color_mode) => match resolve_color_mode_request(connector, physical_monitor, Some(color_mode)) {
            Ok(Some(m)) => Ok(m),
            Ok(None) => Ok(color_mode),
            Err(e) => Err(e),
        },
        None => Err(Error::LuminanceUnsupported { connector: connector.to_owned() }),
    }
}

/// The layout mode to set: none where none is asked for or the requested one is
/// already in force; refused where the backend cannot change it.
pub fn resolved_layout_mode(config: &DisplayConfig, requested: Option<LayoutMode>) -> (r: Result<
    Option<LayoutMode>,
    Error,
>)
    ensures
        match requested {
            None => r matches Ok(None),
            Some(m) => if m == config.known_properties.layout_mode {
                r matches Ok(None)
            } else if !config.known_properties.supports_changing_layout_mode {
                r matches Err(Error::LayoutModeUnsupported { requested: q, current: c }) && q == m
                    && c == config.known_properties.layout_mode
            } else {
                r == Ok::<Option<LayoutMode>, Error>(Some(m))
            },
        },
{
    let requested = match requested {
        Some(requested) => requested,
        None => return Ok(None),
    };
    if requested == config.known_properties.layout_mode {
        return Ok(None);
    }
    if !config.known_properties.supports_changing_layout_mode {
        return Err(
            Error::LayoutModeUnsupported {
                requested,
                current: config.known_properties.layout_mode,
            },
        );
    }
    Ok(Some(requested))
}

/// Whether the backlight state covers the connector.
pub open spec fn backlight_covers(backlight: BacklightState, connector: Seq<char>) -> bool {
    exists|i: int|
        0 <= i < backlight.connectors@.len() && (#[trigger] backlight.connectors@[i]).connector@
            == connector
}

/// The backlight serial and state where the backlight covers `connector`.
pub fn backlight_connector<'a>(native_state: &'a NativeDisplayState, connector: &str) -> (r: Option<
    (u32, &'a BacklightState),
>)
    ensures
        match native_state.backlight {
            Some(b) => if backlight_covers(b, connector@) {
                r matches Some((serial, state)) && serial == b.serial && *state == b
            } else {
                r is None
            },
            None => r is None,
        },
{
    match &native_state.backlight {
        Some(backlight) => {
            let mut i: usize = 0;
            while i < backlight.connectors.len()
                invariant
                    native_state.backlight == Some(*backlight),
                    0 <= i <= backlight.connectors@.len(),
                    forall|j: int| 0 <= j < i ==> (#[trigger] backlight.connectors@[j]).connector@ != connector@,
                decreases backlight.connectors@.len() - i,
            {
                if str_eq(backlight.connectors[i].connector.as_str(), connector) {
                    assert(backlight.connectors@[i as int].connector@ == connector@);
                    return Some((backlight.serial, backlight));
                }
                i = i + 1;
            }
            None
        },
        None => None,
    }
}

/// Whether Mutter reports a luminance preference for the connector.
pub open spec fn luminance_covers(native_state: &NativeDisplayState, connector: Seq<char>) -> bool {
    exists|i: int|
        0 <= i < native_state.luminance@.len() && (#[trigger] native_state.luminance@[i]).connector@
            == connector
}

pub fn has_luminance_entry(native_state: &NativeDisplayState, connector: &str) -> (r: bool)
    ensures
        r == luminance_covers(native_state, connector@),
{
    let mut i: usize = 0;
    while i < native_state.luminance.len()
        invariant
            0 <= i <= native_state.luminance@.len(),
            forall|j: int| 0 <= j < i ==> (#[trigger] native_state.luminance@[j]).connector@ != connector@,
        decreases native_state.luminance@.len() - i,
    {
        if str_eq(native_state.luminance[i].connector.as_str(), connector) {
            assert(native_state.luminance@[i as int].connector@ == connector@);
            return true;
        }
        i = i + 1;
    }
    false
}

/// A backlight percentage must lie in `0..=100`.
pub fn validate_backlight_request(value: i32) -> (r: Result<(), Error>)
    ensures
        0 <= value <= 100 <==> r is Ok,
        r matches Err(e) ==> e matches Error::InvalidBacklight(v) && v == value,
{
    if !(0 <= value && value <= 100) {
        return Err(Error::InvalidBacklight(value));
    }
    Ok(())
}

/// The bit pattern of `100.0`.
pub const HUNDRED_BITS: u64 = 0x4059_0000_0000_0000;

/// Whether the luminance value is a finite number in `0.0..=100.0`.
pub open spec fn luminance_in_range(value: u64) -> bool {
    !crate::float_bits::is_nan(value) && 0 <= crate::float_bits::order_key(value)
        <= crate::float_bits::order_key(HUNDRED_BITS)
}

/// A luminance percentage must be a finite number in `0.0..=100.0`.
pub fn validate_luminance_request(value: u64) -> (r: Result<(), Error>)
    ensures
        luminance_in_range(value) <==> r is Ok,
        r matches Err(e) ==> e matches Error::InvalidLuminance(v) && v == value,
{
    let in_range = crate::float_bits::float_le(0, value) && crate::float_bits::float_le(value, HUNDRED_BITS);
    if !in_range {
        return Err(Error::InvalidLuminance(value));
    }
    Ok(())
}

// ---------------------------------------------------------------------------
// Mode priority and selection
// ---------------------------------------------------------------------------

/// A three-way comparison result.
#[derive(Clone, Copy, Debug, PartialEq, Eq, Structural)]
pub enum Order {
    Less,
    Equal,
    Greater,
}

pub open spec fn bool_order(a: bool, b: bool) -> Order {
    if a == b {
        Order::Equal
    } else if b {
        Order::Less
    } else {
        Order::Greater
    }
}

pub open spec fn int_order(a: int, b: int) -> Order {
    if a < b {
        Order::Less
    } else if a == b {
        Order::Equal
    } else {
        Order::Greater
    }
}

/// `partial_cmp` of two `f64` bit patterns, unordered counting as equal.
pub open spec fn float_order(a: u64, b: u64) -> Order {
    match crate::float_bits::compare_spec(a, b) {
        FloatOrder::Less => Order::Less,
        FloatOrder::Greater => Order::Greater,
        _ => Order::Equal,
    }
}

/// `first.then(second)`.
pub open spec fn then(first: Order, second: Order) -> Order {
    if first == Order::Equal {
        second
    } else {
        first
    }
}

/// How modes rank for automatic choice: preferred first, then current, then
/// larger area, then higher refresh rate.
pub open spec fn priority_order(left: Mode, right: Mode) -> Order {
    then(
        bool_order(left.known_properties.is_preferred, right.known_properties.is_preferred),
        then(
            bool_order(left.known_properties.is_current, right.known_properties.is_current),
            then(
                int_order(left.width * left.height, right.width * right.height),
                float_order(left.refresh_rate, right.refresh_rate),
            ),
        ),
    )
}

fn float_order_exec(a: u64, b: u64) -> (r: Order)
    ensures
        r == float_order(a, b),
{
    match crate::float_bits::compare(a, b) {
        FloatOrder::Less => Order::Less,
        FloatOrder::Greater => Order::Greater,
        _ => Order::Equal,
    }
}

fn bool_order_exec(a: bool, b: bool) -> (r: Order)
    ensures
        r == bool_order(a, b),
{
    if a == b {
        Order::Equal
    } else if b {
        Order::Less
    } else {
        Order::Greater
    }
}

fn area(mode: &Mode) -> (r: i64)
    ensures
        r == mode.width * mode.height,
{
    let w = mode.width as i64;
    let h = mode.height as i64;
    assert(-0x8000_0000 <= w <= 0x7fff_ffff && -0x8000_0000 <= h <= 0x7fff_ffff);
    assert(-0x4000_0000_0000_0000 <= w * h <= 0x4000_0000_0000_0000) by (nonlinear_arith)
        requires
            -0x8000_0000 <= w <= 0x7fff_ffff,
            -0x8000_0000 <= h <= 0x7fff_ffff,
    ;
    w * h
}

/// Compares two modes for automatic choice.
pub fn compare_mode_priority(left: &Mode, right: &Mode) -> (r: Order)
    ensures
        r == priority_order(*left, *right),
{
    let preferred = bool_order_exec(left.known_properties.is_preferred, right.known_properties.is_preferred);
    if preferred != Order::Equal {
        return preferred;
    }
    let current = bool_order_exec(left.known_properties.is_current, right.known_properties.is_current);
    if current != Order::Equal {
        return current;
    }
    let la = area(left);
    let ra = area(right);
    if la < ra {
        return Order::Less;
    }
    if la > ra {
        return Order::Greater;
    }
    float_order_exec(left.refresh_rate, right.refresh_rate)
}

/// Index of the first preferred mode (the number of modes where there is none).
pub open spec fn first_preferred(modes: Seq<Mode>) -> int {
    crate::search::first_index(modes.len(), |i: int| modes[i].known_properties.is_preferred)
}

/// Index of the first current mode (the number of modes where there is none).
pub open spec fn first_current(modes: Seq<Mode>) -> int {
    crate::search::first_index(modes.len(), |i: int| modes[i].known_properties.is_current)
}

pub fn find_preferred(modes: &Vec<Mode>) -> (r: usize)
    ensures
        r == first_preferred(modes@),
{
    let ghost pred = |i: int| modes@[i].known_properties.is_preferred;
    let mut i: usize = 0;
    while i < modes.len()
        invariant
            0 <= i <= modes@.len(),
            pred == (|i: int| modes@[i].known_properties.is_preferred),
            forall|j: int| 0 <= j < i ==> !#[trigger] pred(j),
        decreases modes@.len() - i,
    {
        if modes[i].known_properties.is_preferred {
            proof {
                crate::search::lemma_first_index(modes@.len(), pred, i as int);
            }
            return i;
        }
        i = i + 1;
    }
    proof {
        crate::search::lemma_first_index(modes@.len(), pred, i as int);
    }
    i
}

pub fn find_current(modes: &Vec<Mode>) -> (r: usize)
    ensures
        r == first_current(modes@),
{
    let ghost pred = |i: int| modes@[i].known_properties.is_current;
    let mut i: usize = 0;
    while i < modes.len()
        invariant
            0 <= i <= modes@.len(),
            pred == (|i: int| modes@[i].known_properties.is_current),
            forall|j: int| 0 <= j < i ==> !#[trigger] pred(j),
        decreases modes@.len() - i,
    {
        if modes[i].known_properties.is_current {
            proof {
                crate::search::lemma_first_index(modes@.len(), pred, i as int);
            }
            return i;
        }
        i = i + 1;
    }
    proof {
        crate::search::lemma_first_index(modes@.len(), pred, i as int);
    }
    i
}

/// The first preferred mode of the monitor.
pub fn preferred_mode(physical_monitor: &PhysicalMonitor, connector: &str) -> (r: Result<usize, Error>)
    ensures
        first_preferred(physical_monitor.modes@) < physical_monitor.modes@.len() ==> r
            == Ok::<usize, Error>(first_preferred(physical_monitor.modes@) as usize),
        r matches Ok(i) ==> i == first_preferred(physical_monitor.modes@) && i < physical_monitor.modes@.len(),
        first_preferred(physical_monitor.modes@) == physical_monitor.modes@.len() ==> (r matches Err(
            Error::PreferredModeNotFound { connector: c },
        ) && c@ == connector@),
{
    let i = find_preferred(&physical_monitor.modes);
    proof {
        crate::search::lemma_first_index_props(physical_monitor.modes@.len(), |i: int| physical_monitor.modes@[i].known_properties.is_preferred);
    }
    if i < physical_monitor.modes.len() {
        Ok(i)
    } else {
        Err(Error::PreferredModeNotFound { connector: connector.to_owned() })
    }
}

/// The first current mode of the monitor; `option` names the option that needed it.
pub fn current_mode(physical_monitor: &PhysicalMonitor, connector: &str, option: &'static str) -> (r:
    Result<usize, Error>)
    ensures
        first_current(physical_monitor.modes@) < physical_monitor.modes@.len() ==> r
            == Ok::<usize, Error>(first_current(physical_monitor.modes@) as usize),
        r matches Ok(i) ==> i == first_current(physical_monitor.modes@) && i < physical_monitor.modes@.len(),
        first_current(physical_monitor.modes@) == physical_monitor.modes@.len() ==> (r matches Err(
            Error::CurrentModeNotFound { connector: c, option: o },
        ) && c@ == connector@ && o@ == option@),
{
    let i = find_current(&physical_monitor.modes);
    proof {
        crate::search::lemma_first_index_props(physical_monitor.modes@.len(), |i: int| physical_monitor.modes@[i].known_properties.is_current);
    }
    if i < physical_monitor.modes.len() {
        Ok(i)
    } else {
        Err(Error::CurrentModeNotFound { connector: connector.to_owned(), option })
    }
}

/// The candidate that `Iterator::max_by` with `priority_order` picks: on ties
/// the later candidate wins.
pub open spec fn max_priority(modes: Seq<Mode>, candidates: Seq<int>) -> Option<int>
    decreases candidates.len(),
{
    if candidates.len() == 0 {
        None
    } else {
        let y = candidates.last();
        match max_priority(modes, candidates.drop_last()) {
            None => Some(y),
            Some(b) => if priority_order(modes[b], modes[y]) == Order::Greater {
                Some(b)
            } else {
                Some(y)
            },
        }
    }
}

/// The candidate that `Iterator::min_by` picks when comparing the distances of
/// the candidates' refresh rates to the requested one (`distances[i]` for mode
/// `i`), and on equal distance preferring the higher priority: on complete ties
/// the earlier candidate wins.
pub open spec fn nearest_refresh(modes: Seq<Mode>, candidates: Seq<int>, distances: Seq<u64>) -> Option<
    int,
>
    decreases candidates.len(),
{
    if candidates.len() == 0 {
        None
    } else {
        let y = candidates.last();
        match nearest_refresh(modes, candidates.drop_last(), distances) {
            None => Some(y),
            Some(b) => if then(float_order(distances[b], distances[y]), priority_order(modes[y], modes[b]))
                == Order::Greater {
                Some(y)
            } else {
                Some(b)
            },
        }
    }
}

/// All mode indices in order.
pub open spec fn all_indices(n: int) -> Seq<int> {
    Seq::new(n as nat, |i: int| i)
}

/// Indices of the modes with the given size, in order.
pub open spec fn resolution_candidates(modes: Seq<Mode>, width: int, height: int, n: int) -> Seq<int>
    decreases n,
{
    if n <= 0 {
        Seq::empty()
    } else {
        let rest = resolution_candidates(modes, width, height, n - 1);
        if modes[n - 1].width == width && modes[n - 1].height == height {
            rest.push(n - 1)
        } else {
            rest
        }
    }
}

pub open spec fn indices_valid(candidates: Seq<int>, n: int) -> bool {
    forall|k: int| 0 <= k < candidates.len() ==> 0 <= #[trigger] candidates[k] < n
}

pub open spec fn candidate_view(v: Seq<usize>) -> Seq<int> {
    v.map_values(|i: usize| i as int)
}

/// Indices of the monitor's modes of the given size.
pub fn modes_for_resolution(physical_monitor: &PhysicalMonitor, width: i32, height: i32) -> (r: Vec<
    usize,
>)
    ensures
        candidate_view(r@) == resolution_candidates(
            physical_monitor.modes@,
            width as int,
            height as int,
            physical_monitor.modes@.len() as int,
        ),
        indices_valid(candidate_view(r@), physical_monitor.modes@.len() as int),
{
    let modes = &physical_monitor.modes;
    let mut r: Vec<usize> = Vec::new();
    let mut i: usize = 0;
    while i < modes.len()
        invariant
            0 <= i <= modes@.len(),
            candidate_view(r@) == resolution_candidates(modes@, width as int, height as int, i as int),
            indices_valid(candidate_view(r@), i as int),
        decreases modes@.len() - i,
    {
        if modes[i].width == width && modes[i].height == height {
            let ghost before = r@;
            r.push(i);
            assert(candidate_view(r@) =~= candidate_view(before).push(i as int));
        }
        i = i + 1;
    }
    r
}

/// The candidates for a size are exactly the modes of that size, each once, in
/// the monitor's order.
pub proof fn lemma_resolution_candidates(modes: Seq<Mode>, width: int, height: int, n: int)
    requires
        0 <= n <= modes.len(),
    ensures
        ({
            let c = resolution_candidates(modes, width, height, n);
            &&& forall|k: int| 0 <= k < c.len() ==> 0 <= #[trigger] c[k] < n && modes[c[k]].width == width
                && modes[c[k]].height == height
            &&& forall|i: int| 0 <= i < n && modes[i].width == width && modes[i].height == height ==> #[trigger] c.contains(i)
            &&& forall|k: int, l: int| 0 <= k < l < c.len() ==> #[trigger] c[k] < #[trigger] c[l]
        }),
    decreases n,
{
    if n > 0 {
        lemma_resolution_candidates(modes, width, height, n - 1);
        let rest = resolution_candidates(modes, width, height, n - 1);
        let c = resolution_candidates(modes, width, height, n);
        assert forall|i: int| 0 <= i < n && modes[i].width == width && modes[i].height == height implies #[trigger] c.contains(i) by {
            if i < n - 1 {
                assert(rest.contains(i));
                let k = choose|k: int| 0 <= k < rest.len() && rest[k] == i;
                assert(c[k] == i);
            } else {
                assert(c[c.len() - 1] == i);
            }
        }
    }
}

/// The pick among candidates is one of them, and there is one exactly where
/// there are candidates.
pub proof fn lemma_max_priority_is_a_candidate(modes: Seq<Mode>, candidates: Seq<int>)
    ensures
        candidates.len() == 0 <==> max_priority(modes, candidates) is None,
        max_priority(modes, candidates) matches Some(b) ==> candidates.contains(b),
    decreases candidates.len(),
{
    if candidates.len() > 0 {
        let rest = candidates.drop_last();
        lemma_max_priority_is_a_candidate(modes, rest);
        match max_priority(modes, rest) {
            Some(b) => {
                let k = choose|k: int| 0 <= k < rest.len() && rest[k] == b;
                assert(candidates[k] == b);
            },
            None => {},
        }
        assert(candidates[candidates.len() - 1] == candidates.last());
    }
}

/// How two modes rank: a preferred mode above one that is not; then a current
/// mode above one that is not; then the larger area; then the higher refresh
/// rate, refresh rates that are not numbers ranking equal to everything.
pub proof fn lemma_priority_order(left: Mode, right: Mode)
    ensures
        left.known_properties.is_preferred && !right.known_properties.is_preferred ==> priority_order(left, right)
            == Order::Greater,
        !left.known_properties.is_preferred && right.known_properties.is_preferred ==> priority_order(left, right)
            == Order::Less,
        left.known_properties.is_preferred == right.known_properties.is_preferred ==> {
            &&& left.known_properties.is_current && !right.known_properties.is_current ==> priority_order(left, right)
                == Order::Greater
            &&& !left.known_properties.is_current && right.known_properties.is_current ==> priority_order(left, right)
                == Order::Less
            &&& left.known_properties.is_current == right.known_properties.is_current ==> {
                &&& left.width * left.height > right.width * right.height ==> priority_order(left, right) == Order::Greater
                &&& left.width * left.height < right.width * right.height ==> priority_order(left, right) == Order::Less
                &&& left.width * left.height == right.width * right.height ==> {
                    &&& crate::float_bits::is_nan(left.refresh_rate) || crate::float_bits::is_nan(right.refresh_rate)
                        ==> priority_order(left, right) == Order::Equal
                    &&& !crate::float_bits::is_nan(left.refresh_rate) && !crate::float_bits::is_nan(right.refresh_rate)
                        ==> {
                        &&& crate::float_bits::order_key(left.refresh_rate) > crate::float_bits::order_key(
                            right.refresh_rate,
                        ) ==> priority_order(left, right) == Order::Greater
                        &&& crate::float_bits::order_key(left.refresh_rate) < crate::float_bits::order_key(
                            right.refresh_rate,
                        ) ==> priority_order(left, right) == Order::Less
                        &&& crate::float_bits::order_key(left.refresh_rate) == crate::float_bits::order_key(
                            right.refresh_rate,
                        ) ==> priority_order(left, right) == Order::Equal
                    }
                }
            }
        },
        priority_order(left, right) == Order::Greater <==> priority_order(right, left) == Order::Less,
{
}

/// Ranking modes whose refresh rates are numbers is transitive.
pub proof fn lemma_priority_not_greater_transitive(x: Mode, y: Mode, z: Mode)
    requires
        !crate::float_bits::is_nan(x.refresh_rate),
        !crate::float_bits::is_nan(y.refresh_rate),
        !crate::float_bits::is_nan(z.refresh_rate),
        priority_order(x, y) != Order::Greater,
        priority_order(y, z) != Order::Greater,
    ensures
        priority_order(x, z) != Order::Greater,
{
}

/// Among candidates whose refresh rates are numbers, no candidate ranks above
/// the pick.
pub proof fn lemma_max_priority_ranks_highest(modes: Seq<Mode>, candidates: Seq<int>)
    requires
        forall|k: int| 0 <= k < candidates.len() ==> !crate::float_bits::is_nan(#[trigger] modes[candidates[k]].refresh_rate),
    ensures
        max_priority(modes, candidates) matches Some(b) ==> forall|k: int|
            0 <= k < candidates.len() ==> priority_order(#[trigger] modes[candidates[k]], modes[b]) != Order::Greater,
    decreases candidates.len(),
{
    if candidates.len() > 0 {
        let rest = candidates.drop_last();
        let y = candidates.last();
        assert(candidates[candidates.len() - 1] == y);
        assert forall|k: int| 0 <= k < rest.len() implies !crate::float_bits::is_nan(#[trigger] modes[rest[k]].refresh_rate) by {
            assert(rest[k] == candidates[k]);
        }
        lemma_max_priority_ranks_highest(modes, rest);
        lemma_max_priority_is_a_candidate(modes, rest);
        let b = max_priority(modes, candidates)->0;
        assert(!crate::float_bits::is_nan(modes[y].refresh_rate));
        match max_priority(modes, rest) {
            None => {
                lemma_priority_order(modes[y], modes[y]);
            },
            Some(p) => {
                let kp = choose|k: int| 0 <= k < rest.len() && rest[k] == p;
                assert(candidates[kp] == p);
                assert(!crate::float_bits::is_nan(modes[p].refresh_rate));
                lemma_priority_order(modes[p], modes[y]);
                lemma_priority_order(modes[y], modes[y]);
                assert forall|k: int| 0 <= k < candidates.len() implies priority_order(
                    #[trigger] modes[candidates[k]],
                    modes[b],
                ) != Order::Greater by {
                    if k < rest.len() {
                        assert(rest[k] == candidates[k]);
                        assert(priority_order(modes[rest[k]], modes[p]) != Order::Greater);
                        if b == y {
                            lemma_priority_not_greater_transitive(modes[candidates[k]], modes[p], modes[y]);
                        }
                    }
                }
            },
        }
    }
}

/// Whether every candidate after position `kb` ranks below mode `b`.
pub open spec fn later_rank_below(modes: Seq<Mode>, candidates: Seq<int>, kb: int, b: int) -> bool {
    forall|k: int| kb < k < candidates.len() ==> priority_order(#[trigger] modes[candidates[k]], modes[b]) == Order::Less
}

/// Of candidates that rank equal, the pick is the last: every candidate after
/// it ranks below it.
pub proof fn lemma_max_priority_last_of_equals(modes: Seq<Mode>, candidates: Seq<int>)
    ensures
        max_priority(modes, candidates) matches Some(b) ==> exists|kb: int|
            0 <= kb < candidates.len() && candidates[kb] == b && #[trigger] later_rank_below(modes, candidates, kb, b),
    decreases candidates.len(),
{
    if candidates.len() > 0 {
        let rest = candidates.drop_last();
        let y = candidates.last();
        let last = candidates.len() - 1;
        lemma_max_priority_last_of_equals(modes, rest);
        let b = max_priority(modes, candidates)->0;
        if b == y {
            assert(candidates[last] == y);
            assert(later_rank_below(modes, candidates, last, b));
        } else {
            let p = max_priority(modes, rest)->0;
            assert(b == p && priority_order(modes[p], modes[y]) == Order::Greater);
            assert(priority_order(modes[y], modes[p]) == Order::Less) by {
                lemma_priority_order(modes[p], modes[y]);
            }
            let kb = choose|kb: int| 0 <= kb < rest.len() && rest[kb] == p && #[trigger] later_rank_below(modes, rest, kb, p);
            assert(candidates[kb] == p);
            assert forall|k: int| kb < k < candidates.len() implies priority_order(
                #[trigger] modes[candidates[k]],
                modes[p],
            ) == Order::Less by {
                if k < rest.len() {
                    assert(rest[k] == candidates[k]);
                    assert(priority_order(modes[rest[k]], modes[p]) == Order::Less);
                } else {
                    assert(candidates[k] == y);
                }
            }
            assert(later_rank_below(modes, candidates, kb, b));
        }
    }
}

/// The mode picked for a size has that size, and no mode of that size (with a
/// refresh rate that is a number) ranks above it.
pub proof fn lemma_mode_for_resolution(modes: Seq<Mode>, width: int, height: int)
    requires
        forall|i: int| 0 <= i < modes.len() ==> !crate::float_bits::is_nan(#[trigger] modes[i].refresh_rate),
    ensures
        ({
            let c = resolution_candidates(modes, width, height, modes.len() as int);
            match max_priority(modes, c) {
                Some(b) => {
                    &&& 0 <= b < modes.len()
                    &&& modes[b].width == width && modes[b].height == height
                    &&& forall|i: int| 0 <= i < modes.len() && modes[i].width == width && modes[i].height == height
                        ==> priority_order(#[trigger] modes[i], modes[b]) != Order::Greater
                },
                None => forall|i: int| 0 <= i < modes.len() ==> !(#[trigger] modes[i].width == width && modes[i].height == height),
            }
        }),
{
    let c = resolution_candidates(modes, width, height, modes.len() as int);
    lemma_resolution_candidates(modes, width, height, modes.len() as int);
    lemma_max_priority_is_a_candidate(modes, c);
    assert forall|k: int| 0 <= k < c.len() implies !crate::float_bits::is_nan(#[trigger] modes[c[k]].refresh_rate) by {
        assert(0 <= c[k] < modes.len());
    }
    lemma_max_priority_ranks_highest(modes, c);
    match max_priority(modes, c) {
        Some(b) => {
            assert forall|i: int| 0 <= i < modes.len() && modes[i].width == width && modes[i].height == height
                implies priority_order(#[trigger] modes[i], modes[b]) != Order::Greater by {
                assert(c.contains(i));
                let k = choose|k: int| 0 <= k < c.len() && c[k] == i;
                assert(modes[c[k]] == modes[i]);
            }
        },
        None => {
            assert forall|i: int| 0 <= i < modes.len() implies !(#[trigger] modes[i].width == width && modes[i].height == height) by {
                if modes[i].width == width && modes[i].height == height {
                    assert(c.contains(i));
                }
            }
        },
    }
}

/// The highest-priority candidate.
pub fn choose_mode_for_resolution(physical_monitor: &PhysicalMonitor, candidates: &Vec<usize>) -> (r:
    Option<usize>)
    requires
        indices_valid(candidate_view(candidates@), physical_monitor.modes@.len() as int),
    ensures
        match r {
            Some(i) => max_priority(physical_monitor.modes@, candidate_view(candidates@)) == Some(i as int),
            None => max_priority(physical_monitor.modes@, candidate_view(candidates@)) is None,
        },
{
    let modes = &physical_monitor.modes;
    let mut best: Option<usize> = None;
    let mut k: usize = 0;
    while k < candidates.len()
        invariant
            0 <= k <= candidates@.len(),
            indices_valid(candidate_view(candidates@), modes@.len() as int),
            match best {
                Some(b) => max_priority(modes@, candidate_view(candidates@).take(k as int)) == Some(b as int)
                    && b < modes@.len(),
                None => max_priority(modes@, candidate_view(candidates@).take(k as int)) is None,
            },
        decreases candidates@.len() - k,
    {
        let y = candidates[k];
        assert(candidate_view(candidates@)[k as int] == y as int);
        assert(candidate_view(candidates@).take(k + 1).drop_last() == candidate_view(candidates@).take(k as int));
        best = match best {
            None => Some(y),
            Some(b) => if compare_mode_priority(&modes[b], &modes[y]) == Order::Greater {
                Some(b)
            } else {
                Some(y)
            },
        };
        k = k + 1;
    }
    assert(candidate_view(candidates@).take(candidates@.len() as int) == candidate_view(candidates@));
    best
}

/// The candidate with the refresh rate nearest the requested one;
/// `distances[i]` is the bit pattern of `|refresh of mode i - requested|`.
pub fn choose_nearest_refresh_mode(
    physical_monitor: &PhysicalMonitor,
    candidates: &Vec<usize>,
    distances: &[u64],
) -> (r: Option<usize>)
    requires
        indices_valid(candidate_view(candidates@), physical_monitor.modes@.len() as int),
        distances@.len() == physical_monitor.modes@.len(),
    ensures
        match r {
            Some(i) => nearest_refresh(physical_monitor.modes@, candidate_view(candidates@), distances@)
                == Some(i as int),
            None => nearest_refresh(physical_monitor.modes@, candidate_view(candidates@), distances@) is None,
        },
{
    let modes = &physical_monitor.modes;
    let mut best: Option<usize> = None;
    let mut k: usize = 0;
    while k < candidates.len()
        invariant
            0 <= k <= candidates@.len(),
            distances@.len() == modes@.len(),
            indices_valid(candidate_view(candidates@), modes@.len() as int),
            match best {
                Some(b) => nearest_refresh(modes@, candidate_view(candidates@).take(k as int), distances@)
                    == Some(b as int) && b < modes@.len(),
                None => nearest_refresh(modes@, candidate_view(candidates@).take(k as int), distances@) is None,
            },
        decreases candidates@.len() - k,
    {
        let y = candidates[k];
        assert(candidate_view(candidates@)[k as int] == y as int);
        assert(candidate_view(candidates@).take(k + 1).drop_last() == candidate_view(candidates@).take(k as int));
        best = match best {
            None => Some(y),
            Some(b) => {
                let by_distance = float_order_exec(distances[b], distances[y]);
                let order = if by_distance == Order::Equal {
                    compare_mode_priority(&modes[y], &modes[b])
                } else {
                    by_distance
                };
                if order == Order::Greater {
                    Some(y)
                } else {
                    Some(b)
                }
            },
        };
        k = k + 1;
    }
    assert(candidate_view(candidates@).take(candidates@.len() as int) == candidate_view(candidates@));
    best
}

/// The mode `--auto` picks: the preferred one, or else the current one, or else
/// the highest-priority one.
pub open spec fn auto_spec(modes: Seq<Mode>) -> Option<int> {
    if first_preferred(modes) < modes.len() {
        Some(first_preferred(modes))
    } else if first_current(modes) < modes.len() {
        Some(first_current(modes))
    } else {
        max_priority(modes, all_indices(modes.len() as int))
    }
}

/// The mode `--auto` picks.
pub fn auto_mode(physical_monitor: &PhysicalMonitor, connector: &str) -> (r: Result<usize, Error>)
    ensures
        match auto_spec(physical_monitor.modes@) {
            Some(i) => r == Ok::<usize, Error>(i as usize),
            None => r matches Err(Error::AutoModeNotFound { connector: c }) && c@ == connector@,
        },
{
    let modes = &physical_monitor.modes;
    proof {
        crate::search::lemma_first_index_props(modes@.len(), |i: int| modes@[i].known_properties.is_preferred);
        crate::search::lemma_first_index_props(modes@.len(), |i: int| modes@[i].known_properties.is_current);
    }
    let p = find_preferred(modes);
    if p < modes.len() {
        return Ok(p);
    }
    let c = find_current(modes);
    if c < modes.len() {
        return Ok(c);
    }
    let mut all: Vec<usize> = Vec::new();
    let mut i: usize = 0;
    while i < modes.len()
        invariant
            0 <= i <= modes@.len(),
            candidate_view(all@) == all_indices(i as int),
        decreases modes@.len() - i,
    {
        let ghost before = all@;
        all.push(i);
        assert(candidate_view(all@) =~= candidate_view(before).push(i as int));
        assert(all_indices(i + 1) =~= all_indices(i as int).push(i as int));
        i = i + 1;
    }
    match choose_mode_for_resolution(physical_monitor, &all) {
        Some(m) => Ok(m),
        None => Err(Error::AutoModeNotFound { connector: connector.to_owned() }),
    }
}

/// Index of the first mode with the given id (the number of modes where there is none).
pub open spec fn first_with_id(modes: Seq<Mode>, id: Seq<char>) -> int {
    crate::search::first_index(modes.len(), |i: int| modes[i].id@ == id)
}

fn find_mode_id(modes: &Vec<Mode>, id: &str) -> (r: usize)
    ensures
        r == first_with_id(modes@, id@),
{
    let ghost pred = |i: int| modes@[i].id@ == id@;
    let mut i: usize = 0;
    while i < modes.len()
        invariant
            0 <= i <= modes@.len(),
            pred == (|i: int| modes@[i].id@ == id@),
            forall|j: int| 0 <= j < i ==> !#[trigger] pred(j),
        decreases modes@.len() - i,
    {
        if str_eq(modes[i].id.as_str(), id) {
            proof {
                crate::search::lemma_first_index(modes@.len(), pred, i as int);
            }
            return i;
        }
        i = i + 1;
    }
    proof {
        crate::search::lemma_first_index(modes@.len(), pred, i as int);
    }
    i
}

/// What resolving the mode options comes to.
pub enum ModeResolution {
    Picked(Option<int>),
    PreferredMissing,
    AutoMissing,
    CurrentMissing,
    RefreshWithExactMode,
    NotFound,
}

/// The mode that `--preferred`, `--auto`, `--mode` and `--refresh` select.
/// `distances[i]` is the bit pattern of `|refresh of mode i - requested refresh|`.
pub open spec fn resolve_mode_spec(
    modes: Seq<Mode>,
    preferred: bool,
    auto_mode: bool,
    mode: Option<Seq<char>>,
    refresh: bool,
    distances: Seq<u64>,
) -> ModeResolution {
    let n = modes.len() as int;
    if preferred {
        if first_preferred(modes) < n {
            ModeResolution::Picked(Some(first_preferred(modes)))
        } else {
            ModeResolution::PreferredMissing
        }
    } else if auto_mode {
        match auto_spec(modes) {
            Some(i) => ModeResolution::Picked(Some(i)),
            None => ModeResolution::AutoMissing,
        }
    } else if mode is Some {
        let requested = mode->0;
        let exact = first_with_id(modes, requested);
        if exact < n {
            if refresh {
                ModeResolution::RefreshWithExactMode
            } else {
                ModeResolution::Picked(Some(exact))
            }
        } else {
            match parse_resolution_spec(requested) {
                Some((w, h)) => {
                    let candidates = resolution_candidates(modes, w, h, n);
                    let chosen = if refresh {
                        nearest_refresh(modes, candidates, distances)
                    } else {
                        max_priority(modes, candidates)
                    };
                    match chosen {
                        Some(i) => ModeResolution::Picked(Some(i)),
                        None => ModeResolution::NotFound,
                    }
                },
                None => ModeResolution::NotFound,
            }
        }
    } else if refresh {
        let current = first_current(modes);
        if current < n {
            ModeResolution::Picked(
                nearest_refresh(
                    modes,
                    resolution_candidates(modes, modes[current].width as int, modes[current].height as int, n),
                    distances,
                ),
            )
        } else {
            ModeResolution::CurrentMissing
        }
    } else {
        ModeResolution::Picked(None)
    }
}

pub open spec fn opt_str_view(o: Option<String>) -> Option<Seq<char>> {
    match o {
        Some(s) => Some(s@),
        None => None,
    }
}

/// Whether `r` is the result that `outcome` calls for.
pub open spec fn mode_result_matches(
    r: Result<Option<usize>, Error>,
    outcome: ModeResolution,
    connector: Seq<char>,
    requested: Seq<char>,
) -> bool {
    match outcome {
        ModeResolution::Picked(Some(i)) => r == Ok::<Option<usize>, Error>(Some(i as usize)),
        ModeResolution::Picked(None) => r == Ok::<Option<usize>, Error>(None),
        ModeResolution::PreferredMissing => r matches Err(Error::PreferredModeNotFound { connector: c })
            && c@ == connector,
        ModeResolution::AutoMissing => r matches Err(Error::AutoModeNotFound { connector: c }) && c@
            == connector,
        ModeResolution::CurrentMissing => r matches Err(Error::CurrentModeNotFound { connector: c, option: o })
            && c@ == connector && o@ == "--refresh"@,
        ModeResolution::RefreshWithExactMode => r matches Err(Error::RefreshWithExactMode { mode: m })
            && m@ == requested,
        ModeResolution::NotFound => r matches Err(Error::ModeNotFound { connector: c, mode: m }) && c@
            == connector && m@ == requested,
    }
}

/// Resolves the mode options for one output to an index into its modes.
/// `refresh_distances[i]` is the bit pattern of `|refresh of mode i - requested
/// refresh|` and is read only when `--refresh` is given.
pub fn resolve_mode(
    physical_monitor: &PhysicalMonitor,
    connector: &str,
    actions: &ActionOptions,
    refresh_distances: &[u64],
) -> (r: Result<Option<usize>, Error>)
    requires
        actions.refresh is Some ==> refresh_distances@.len() == physical_monitor.modes@.len(),
    ensures
        mode_result_matches(
            r,
            resolve_mode_spec(
                physical_monitor.modes@,
                actions.preferred,
                actions.auto_mode,
                opt_str_view(actions.mode),
                actions.refresh is Some,
                refresh_distances@,
            ),
            connector@,
            match actions.mode {
                Some(m) => m@,
                None => Seq::empty(),
            },
        ),
{
    let modes = &physical_monitor.modes;
    proof {
        crate::search::lemma_first_index_props(modes@.len(), |i: int| modes@[i].known_properties.is_preferred);
        crate::search::lemma_first_index_props(modes@.len(), |i: int| modes@[i].known_properties.is_current);
    }
    if actions.preferred {
        return match preferred_mode(physical_monitor, connector) {
            Ok(i) => Ok(Some(i)),
            Err(e) => Err(e),
        };
    }
    if actions.auto_mode {
        return match auto_mode(physical_monitor, connector) {
            Ok(i) => Ok(Some(i)),
            Err(e) => Err(e),
        };
    }
    if let Some(requested_mode) = &actions.mode {
        let requested = requested_mode.as_str();
        proof {
            crate::search::lemma_first_index_props(modes@.len(), |i: int| modes@[i].id@ == requested@);
        }
        let exact = find_mode_id(modes, requested);
        if exact < modes.len() {
            if actions.refresh.is_some() {
                return Err(Error::RefreshWithExactMode { mode: requested.to_owned() });
            }
            return Ok(Some(exact));
        }
        if let Some((width, height)) = parse_resolution(requested) {
            let candidates = modes_for_resolution(physical_monitor, width, height);
            let mode = match actions.refresh {
                Some(_) => choose_nearest_refresh_mode(physical_monitor, &candidates, refresh_distances),
                None => choose_mode_for_resolution(physical_monitor, &candidates),
            };
            return match mode {
                Some(i) => Ok(Some(i)),
                None => Err(Error::ModeNotFound { connector: connector.to_owned(), mode: requested.to_owned() }),
            };
        }
        return Err(Error::ModeNotFound { connector: connector.to_owned(), mode: requested.to_owned() });
    }
    if actions.refresh.is_some() {
        let current = match current_mode(physical_monitor, connector, "--refresh") {
            Ok(i) => i,
            Err(e) => return Err(e),
        };
        let candidates = modes_for_resolution(physical_monitor, modes[current].width, modes[current].height);
        let chosen = choose_nearest_refresh_mode(physical_monitor, &candidates, refresh_distances);
        return Ok(chosen);
    }
    Ok(None)
}

/// The mode whose supported scales `--scale` is checked against: the resolved
/// one, or else the current one.
pub open spec fn scale_mode_spec(modes: Seq<Mode>, resolved: Option<usize>) -> Option<int> {
    match resolved {
        Some(i) => Some(i as int),
        None => if first_current(modes) < modes.len() {
            Some(first_current(modes))
        } else {
            None
        },
    }
}

pub fn selected_mode_for_scale(
    physical_monitor: &PhysicalMonitor,
    connector: &str,
    resolved_mode: Option<usize>,
) -> (r: Result<usize, Error>)
    requires
        resolved_mode matches Some(i) ==> i < physical_monitor.modes@.len(),
    ensures
        r matches Ok(i) ==> i < physical_monitor.modes@.len() && scale_mode_spec(
            physical_monitor.modes@,
            resolved_mode,
        ) == Some(i as int),
        match scale_mode_spec(physical_monitor.modes@, resolved_mode) {
            Some(i) => r == Ok::<usize, Error>(i as usize),
            None => r matches Err(Error::CurrentModeNotFound { connector: c, option: o }) && c@
                == connector@ && o@ == "--scale"@,
        },
{
    match resolved_mode {
        Some(i) => Ok(i),
        None => current_mode(physical_monitor, connector, "--scale"),
    }
}

/// Checks `--scale` against the supported scales of the selected mode.
/// `scale_distances[k]` is the bit pattern of `|supported scale k of that mode -
/// requested|`.
pub fn resolve_scale(
    physical_monitor: &PhysicalMonitor,
    connector: &str,
    resolved_mode: Option<usize>,
    requested_scale: Option<u64>,
    scale_distances: &[u64],
) -> (r: Result<Option<u64>, Error>)
    requires
        resolved_mode matches Some(i) ==> i < physical_monitor.modes@.len(),
        requested_scale is Some ==> (scale_mode_spec(physical_monitor.modes@, resolved_mode) matches Some(m)
            ==> scale_distances@.len() == physical_monitor.modes@[m].supported_scales@.len()),
    ensures
        match requested_scale {
            None => r matches Ok(None),
            Some(q) => match scale_mode_spec(physical_monitor.modes@, resolved_mode) {
                None => r matches Err(Error::CurrentModeNotFound { connector: c, option: o }) && c@
                    == connector@ && o@ == "--scale"@,
                Some(m) => {
                    let mode = physical_monitor.modes@[m];
                    match crate::cli::common::match_supported_scale_spec(q, mode.supported_scales@, scale_distances@) {
                        Some(scale) => r == Ok::<Option<u64>, Error>(Some(scale)),
                        None => r matches Err(Error::InvalidScale { connector: c, mode: id, requested: rq, supported_scales: ss })
                            && c@ == connector@ && id@ == mode.id@ && rq == q && ss@ == mode.supported_scales@,
                    }
                },
            },
        },
{
    let requested = match requested_scale {
        Some(scale) => scale,
        None => return Ok(None),
    };
    let m = match selected_mode_for_scale(physical_monitor, connector, resolved_mode) {
        Ok(m) => m,
        Err(e) => return Err(e),
    };
    let mode = &physical_monitor.modes[m];
    assert(scale_mode_spec(physical_monitor.modes@, resolved_mode) == Some(m as int));
    assert(scale_distances@.len() == mode.supported_scales@.len());
    match crate::cli::common::match_supported_scale(requested, mode.supported_scales.as_slice(), scale_distances) {
        Some(scale) => Ok(Some(scale)),
        None => Err(
            Error::InvalidScale {
                connector: connector.to_owned(),
                mode: mode.id.clone(),
                requested,
                supported_scales: mode.supported_scales.clone(),
            },
        ),
    }
}

// ---------------------------------------------------------------------------
// Relative placement and mirroring
// ---------------------------------------------------------------------------

/// Where to place an output next to another.
#[derive(Clone, Copy, Debug, PartialEq, Eq, Structural)]
pub enum RelativePlacement {
    LeftOf,
    RightOf,
    Above,
    Below,
}

impl RelativePlacement {
    pub fn describe(self) -> (s: &'static str)
        ensures
            s@ == match self {
                RelativePlacement::LeftOf => "left of"@,
                RelativePlacement::RightOf => "right of"@,
                RelativePlacement::Above => "above"@,
                RelativePlacement::Below => "below"@,
            },
    {
        match self {
            RelativePlacement::LeftOf => "left of",
            RelativePlacement::RightOf => "right of",
            RelativePlacement::Above => "above",
            RelativePlacement::Below => "below",
        }
    }
}

/// Where an output of size `size` goes to sit next to an anchor at `anchor` of
/// size `anchor_size`: left of it ends where the anchor starts, right of it
/// starts where the anchor ends, above ends where the anchor's top is, below
/// starts at the anchor's bottom; the other coordinate is the anchor's.
pub open spec fn relative_position_spec(
    placement: RelativePlacement,
    anchor: (i32, i32),
    anchor_size: (i32, i32),
    size: (i32, i32),
) -> (int, int) {
    match placement {
        RelativePlacement::LeftOf => (anchor.0 - size.0, anchor.1 as int),
        RelativePlacement::RightOf => (anchor.0 + anchor_size.0, anchor.1 as int),
        RelativePlacement::Above => (anchor.0 as int, anchor.1 - size.1),
        RelativePlacement::Below => (anchor.0 as int, anchor.1 + anchor_size.1),
    }
}

/// The position for a relative placement, or none where it leaves the `i32`
/// coordinate range.
pub fn relative_position(
    placement: RelativePlacement,
    anchor: (i32, i32),
    anchor_size: (i32, i32),
    size: (i32, i32),
) -> (r: Option<(i32, i32)>)
    ensures
        ({
            let p = relative_position_spec(placement, anchor, anchor_size, size);
            match r {
                Some(q) => q.0 == p.0 && q.1 == p.1,
                None => !(i32::MIN <= p.0 <= i32::MAX && i32::MIN <= p.1 <= i32::MAX),
            }
        }),
{
    let (x, y): (i64, i64) = match placement {
        RelativePlacement::LeftOf => (anchor.0 as i64 - size.0 as i64, anchor.1 as i64),
        RelativePlacement::RightOf => (anchor.0 as i64 + anchor_size.0 as i64, anchor.1 as i64),
        RelativePlacement::Above => (anchor.0 as i64, anchor.1 as i64 - size.1 as i64),
        RelativePlacement::Below => (anchor.0 as i64, anchor.1 as i64 + anchor_size.1 as i64),
    };
    if i32::MIN as i64 <= x && x <= i32::MAX as i64 && i32::MIN as i64 <= y && y <= i32::MAX as i64 {
        Some((x as i32, y as i32))
    } else {
        None
    }
}

/// A request to place the output next to the `reference` output.
#[derive(Debug)]
pub struct RelativePlacementRequest {
    pub placement: RelativePlacement,
    pub reference: String,
}

/// The placement option given, checked in the order `--left-of`,
/// `--right-of`, `--above`, `--below`.
pub open spec fn relative_placement_spec(a: &ActionOptions) -> Option<(RelativePlacement, Seq<char>)> {
    match (&a.left_of, &a.right_of, &a.above, &a.below) {
        (Some(r), _, _, _) => Some((RelativePlacement::LeftOf, r@)),
        (None, Some(r), _, _) => Some((RelativePlacement::RightOf, r@)),
        (None, None, Some(r), _) => Some((RelativePlacement::Above, r@)),
        (None, None, None, Some(r)) => Some((RelativePlacement::Below, r@)),
        (None, None, None, None) => None,
    }
}

pub fn relative_placement_request(actions: &ActionOptions) -> (r: Option<RelativePlacementRequest>)
    ensures
        match r {
            Some(req) => relative_placement_spec(actions) == Some((req.placement, req.reference@)),
            None => relative_placement_spec(actions) is None,
        },
{
    if let Some(reference) = &actions.left_of {
        Some(RelativePlacementRequest { placement: RelativePlacement::LeftOf, reference: reference.clone() })
    } else if let Some(reference) = &actions.right_of {
        Some(RelativePlacementRequest { placement: RelativePlacement::RightOf, reference: reference.clone() })
    } else if let Some(reference) = &actions.above {
        Some(RelativePlacementRequest { placement: RelativePlacement::Above, reference: reference.clone() })
    } else if let Some(reference) = &actions.below {
        Some(RelativePlacementRequest { placement: RelativePlacement::Below, reference: reference.clone() })
    } else {
        None
    }
}

/// A mirroring request: the reference output and the index of the target
/// monitor's mode to mirror with.
#[derive(Debug)]
pub struct CloneRequest {
    pub reference: String,
    pub mode: usize,
}

fn contains_u32(v: &Vec<u32>, x: u32) -> (r: bool)
    ensures
        r == v@.contains(x),
{
    let mut i: usize = 0;
    while i < v.len()
        invariant
            0 <= i <= v@.len(),
            forall|j: int| 0 <= j < i ==> v@[j] != x,
        decreases v@.len() - i,
    {
        if v[i] == x {
            assert(v@[i as int] == x);
            return true;
        }
        i = i + 1;
    }
    false
}

/// Whether two CRTC lists share an entry.
pub open spec fn share_crtc(a: Seq<u32>, b: Seq<u32>) -> bool {
    exists|i: int| 0 <= i < a.len() && b.contains(#[trigger] a[i])
}

fn shares_crtc(a: &Vec<u32>, b: &Vec<u32>) -> (r: bool)
    ensures
        r == share_crtc(a@, b@),
{
    let mut i: usize = 0;
    while i < a.len()
        invariant
            0 <= i <= a@.len(),
            forall|j: int| 0 <= j < i ==> !b@.contains(#[trigger] a@[j]),
        decreases a@.len() - i,
    {
        if contains_u32(b, a[i]) {
            return true;
        }
        i = i + 1;
    }
    false
}

/// What checking a `--same-as` request comes to.
pub enum CloneOutcome {
    WithSelf,
    ReferenceDisabled,
    Missing,
    CurrentMissing,
    NotSupported,
    CrtcNotShared,
    /// No mode of the target matches the reference's current mode, named by its id.
    ModeUnavailable(Seq<char>),
    /// The index of the target's mode to mirror with.
    Cloned(int),
}

/// A `--same-as` request checked in order: the reference must be another
/// output, enabled, with a current mode; both outputs must be in Mutter's
/// resources, one listing the other as a possible clone, and share a CRTC;
/// the target then mirrors with its mode of the reference's resolution whose
/// refresh rate is nearest (`distances`).
pub open spec fn clone_spec(
    connector: Seq<char>,
    reference: Seq<char>,
    target_monitor: &PhysicalMonitor,
    config: &DisplayConfig,
    resources: &crate::display_config::resources::Resources,
    distances: Seq<u64>,
) -> CloneOutcome {
    let p = config.physical_index(reference);
    let rm = config.monitors@[p];
    let current = first_current(rm.modes@);
    let ti = resources.output_index(connector);
    let si = resources.output_index(reference);
    let target = resources.outputs@[ti];
    let source = resources.outputs@[si];
    if connector == reference {
        CloneOutcome::WithSelf
    } else if !config.is_enabled(reference) {
        CloneOutcome::ReferenceDisabled
    } else if p >= config.monitors@.len() {
        CloneOutcome::Missing
    } else if current >= rm.modes@.len() {
        CloneOutcome::CurrentMissing
    } else if ti >= resources.outputs@.len() || si >= resources.outputs@.len() {
        CloneOutcome::Missing
    } else if !(target.clones@.contains(source.id) || source.clones@.contains(target.id)) {
        CloneOutcome::NotSupported
    } else if !share_crtc(target.possible_crtcs@, source.possible_crtcs@) {
        CloneOutcome::CrtcNotShared
    } else {
        let modes = target_monitor.modes@;
        let ref_mode = rm.modes@[current];
        match nearest_refresh(
            modes,
            resolution_candidates(modes, ref_mode.width as int, ref_mode.height as int, modes.len() as int),
            distances,
        ) {
            Some(i) => CloneOutcome::Cloned(i),
            None => CloneOutcome::ModeUnavailable(ref_mode.id@),
        }
    }
}

/// Checks a `--same-as` request before it is sent (see `clone_spec`): the reference must be
/// another, enabled output whose current mode the target can match, and
/// Mutter's resources must allow the two to share a CRTC.
/// `distances[i]` is the bit pattern of `|refresh of target mode i - refresh of
/// the reference's current mode|`.
pub fn resolve_clone_request(
    connector: &str,
    reference: &str,
    target_monitor: &PhysicalMonitor,
    config: &DisplayConfig,
    resources: &crate::display_config::resources::Resources,
    distances: &[u64],
) -> (r: Result<CloneRequest, Error>)
    requires
        distances@.len() == target_monitor.modes@.len(),
    ensures
        match clone_spec(connector@, reference@, target_monitor, config, resources, distances@) {
            CloneOutcome::WithSelf => r matches Err(Error::CloneWithSelf { connector: c }) && c@ == connector@,
            CloneOutcome::ReferenceDisabled => r matches Err(Error::ReferenceOutputDisabled { connector: c })
                && c@ == reference@,
            CloneOutcome::Missing => r matches Err(Error::NotFound),
            CloneOutcome::CurrentMissing => r matches Err(Error::CurrentModeNotFound { connector: c, option: o })
                && c@ == reference@ && o@ == "--same-as"@,
            CloneOutcome::NotSupported => r matches Err(Error::CloneNotSupported { connector: c, reference: f })
                && c@ == connector@ && f@ == reference@,
            CloneOutcome::CrtcNotShared => r matches Err(Error::CloneCrtcNotShared { connector: c, reference: f })
                && c@ == connector@ && f@ == reference@,
            CloneOutcome::ModeUnavailable(id) => r matches Err(
                Error::CloneModeUnavailable { connector: c, reference: f, mode: m },
            ) && c@ == connector@ && f@ == reference@ && m@ == id,
            CloneOutcome::Cloned(i) => r matches Ok(req) && req.reference@ == reference@ && req.mode == i,
        },
{
    if str_eq(connector, reference) {
        return Err(Error::CloneWithSelf { connector: connector.to_owned() });
    }
    if config.logical_monitor_for_connector(reference).is_none() {
        return Err(Error::ReferenceOutputDisabled { connector: reference.to_owned() });
    }
    let reference_monitor = match config.physical_monitor(reference) {
        Some(m) => m,
        None => return Err(Error::NotFound),
    };
    let current = match current_mode(reference_monitor, reference, "--same-as") {
        Ok(i) => i,
        Err(e) => return Err(e),
    };
    let reference_mode = &reference_monitor.modes[current];
    let target_output = match resources.output_for_connector(connector) {
        Some(o) => o,
        None => return Err(Error::NotFound),
    };
    let reference_output = match resources.output_for_connector(reference) {
        Some(o) => o,
        None => return Err(Error::NotFound),
    };
    if !contains_u32(&target_output.clones, reference_output.id) && !contains_u32(
        &reference_output.clones,
        target_output.id,
    ) {
        return Err(
            Error::CloneNotSupported { connector: connector.to_owned(), reference: reference.to_owned() },
        );
    }
    if !shares_crtc(&target_output.possible_crtcs, &reference_output.possible_crtcs) {
        return Err(
            Error::CloneCrtcNotShared { connector: connector.to_owned(), reference: reference.to_owned() },
        );
    }
    let candidates = modes_for_resolution(target_monitor, reference_mode.width, reference_mode.height);
    match choose_nearest_refresh_mode(target_monitor, &candidates, distances) {
        Some(mode) => Ok(CloneRequest { reference: reference.to_owned(), mode }),
        None => Err(
            Error::CloneModeUnavailable {
                connector: connector.to_owned(),
                reference: reference.to_owned(),
                mode: reference_mode.id.clone(),
            },
        ),
    }
}

} // verus!

use vstd::prelude::*;

use crate::text::{str_eq, chars_of};
use crate::float_bits::ONE_BITS;

verus! {

// ---------------------------------------------------------------------------
// Power-save modes
// ---------------------------------------------------------------------------

/// Mutter's power-save modes, as reported and accepted over D-Bus.
#[derive(Debug, Clone, Copy, PartialEq, Eq, Structural)]
pub enum PowerSaveMode {
    Unknown,
    On,
    Standby,
    Suspend,
    Off,
}

impl PowerSaveMode {
    /// The D-Bus integer that stands for each mode.
    pub open spec fn spec_raw_value(self) -> int {
        match self {
            PowerSaveMode::Unknown => -1,
            PowerSaveMode::On => 0,
            PowerSaveMode::Standby => 1,
            PowerSaveMode::Suspend => 2,
            PowerSaveMode::Off => 3,
        }
    }

    /// The name that the command line and the output use for each mode.
    pub open spec fn spec_name(self) -> Seq<char> {
        match self {
            PowerSaveMode::Unknown => "unknown"@,
            PowerSaveMode::On => "on"@,
            PowerSaveMode::Standby => "standby"@,
            PowerSaveMode::Suspend => "suspend"@,
            PowerSaveMode::Off => "off"@,
        }
    }

    /// The mode whose name is `s`, if any.
    pub open spec fn spec_from_name(s: Seq<char>) -> Option<PowerSaveMode> {
        if s == "on"@ {
            Some(PowerSaveMode::On)
        } else if s == "standby"@ {
            Some(PowerSaveMode::Standby)
        } else if s == "suspend"@ {
            Some(PowerSaveMode::Suspend)
        } else if s == "off"@ {
            Some(PowerSaveMode::Off)
        } else if s == "unknown"@ {
            Some(PowerSaveMode::Unknown)
        } else {
            None
        }
    }

    pub fn as_str(self) -> (s: &'static str)
        ensures
            s@ == self.spec_name(),
    {
        match self {
            PowerSaveMode::Unknown => "unknown",
            PowerSaveMode::On => "on",
            PowerSaveMode::Standby => "standby",
            PowerSaveMode::Suspend => "suspend",
            PowerSaveMode::Off => "off",
        }
    }

    pub fn raw_value(self) -> (raw: i32)
        ensures
            raw == self.spec_raw_value(),
    {
        match self {
            PowerSaveMode::Unknown => -1,
            PowerSaveMode::On => 0,
            PowerSaveMode::Standby => 1,
            PowerSaveMode::Suspend => 2,
            PowerSaveMode::Off => 3,
        }
    }

    pub fn from_raw(value: i32) -> (mode: Option<PowerSaveMode>)
        ensures
            mode matches Some(m) ==> m.spec_raw_value() == value,
            mode is None <==> !(-1 <= value <= 3),
    {
        match value {
            -1 => Some(PowerSaveMode::Unknown),
            0 => Some(PowerSaveMode::On),
            1 => Some(PowerSaveMode::Standby),
            2 => Some(PowerSaveMode::Suspend),
            3 => Some(PowerSaveMode::Off),
            _ => None,
        }
    }

    /// Parses a mode name, as `str::parse::<PowerSaveMode>` does.
    pub fn from_name(value: &str) -> (mode: Option<PowerSaveMode>)
        ensures
            mode == PowerSaveMode::spec_from_name(value@),
    {
        if str_eq(value, "on") {
            Some(PowerSaveMode::On)
        } else if str_eq(value, "standby") {
            Some(PowerSaveMode::Standby)
        } else if str_eq(value, "suspend") {
            Some(PowerSaveMode::Suspend)
        } else if str_eq(value, "off") {
            Some(PowerSaveMode::Off)
        } else if str_eq(value, "unknown") {
            Some(PowerSaveMode::Unknown)
        } else {
            None
        }
    }
}

// ---------------------------------------------------------------------------
// Brightness filters
// ---------------------------------------------------------------------------

/// The tone-mapping filters of software brightness.
#[derive(Debug, Clone, Copy, PartialEq, Eq, Structural)]
pub enum BrightnessFilter {
    Linear,
    Gamma,
    Filmic,
}

impl BrightnessFilter {
    pub open spec fn spec_name(self) -> Seq<char> {
        match self {
            BrightnessFilter::Linear => "linear"@,
            BrightnessFilter::Gamma => "gamma"@,
            BrightnessFilter::Filmic => "filmic"@,
        }
    }

    pub open spec fn spec_from_name(s: Seq<char>) -> Option<BrightnessFilter> {
        if s == "linear"@ {
            Some(BrightnessFilter::Linear)
        } else if s == "gamma"@ {
            Some(BrightnessFilter::Gamma)
        } else if s == "filmic"@ {
            Some(BrightnessFilter::Filmic)
        } else {
            None
        }
    }

    pub fn as_str(self) -> (s: &'static str)
        ensures
            s@ == self.spec_name(),
    {
        match self {
            BrightnessFilter::Linear => "linear",
            BrightnessFilter::Gamma => "gamma",
            BrightnessFilter::Filmic => "filmic",
        }
    }

    /// Parses a filter name, as `str::parse::<BrightnessFilter>` does.
    pub fn from_name(value: &str) -> (filter: Option<BrightnessFilter>)
        ensures
            filter == BrightnessFilter::spec_from_name(value@),
    {
        if str_eq(value, "linear") {
            Some(BrightnessFilter::Linear)
        } else if str_eq(value, "gamma") {
            Some(BrightnessFilter::Gamma)
        } else if str_eq(value, "filmic") {
            Some(BrightnessFilter::Filmic)
        } else {
            None
        }
    }
}

// ---------------------------------------------------------------------------
// Color modes
// ---------------------------------------------------------------------------

/// The monitor color modes that Mutter exposes.
#[derive(Debug, Clone, Copy, PartialEq, Eq, Structural)]
pub enum ColorMode {
    Default,
    Bt2100,
}

impl ColorMode {
    pub open spec fn spec_raw_value(self) -> nat {
        match self {
            ColorMode::Default => 0,
            ColorMode::Bt2100 => 1,
        }
    }

    pub open spec fn spec_from_raw(value: int) -> Option<ColorMode> {
        if value == 0 {
            Some(ColorMode::Default)
        } else if value == 1 {
            Some(ColorMode::Bt2100)
        } else {
            None
        }
    }

    pub open spec fn spec_name(self) -> Seq<char> {
        match self {
            ColorMode::Default => "default"@,
            ColorMode::Bt2100 => "bt2100"@,
        }
    }

    pub open spec fn spec_from_name(s: Seq<char>) -> Option<ColorMode> {
        if s == "default"@ {
            Some(ColorMode::Default)
        } else if s == "bt2100"@ {
            Some(ColorMode::Bt2100)
        } else {
            None
        }
    }

    pub fn as_str(self) -> (s: &'static str)
        ensures
            s@ == self.spec_name(),
    {
        match self {
            ColorMode::Default => "default",
            ColorMode::Bt2100 => "bt2100",
        }
    }

    pub fn raw_value(self) -> (raw: u32)
        ensures
            raw == self.spec_raw_value(),
    {
        match self {
            ColorMode::Default => 0,
            ColorMode::Bt2100 => 1,
        }
    }

    pub fn from_raw(value: u32) -> (mode: Option<ColorMode>)
        ensures
            mode == ColorMode::spec_from_raw(value as int),
    {
        match value {
            0 => Some(ColorMode::Default),
            1 => Some(ColorMode::Bt2100),
            _ => None,
        }
    }

    /// Parses a color-mode name, as `str::parse::<ColorMode>` does.
    pub fn from_name(value: &str) -> (mode: Option<ColorMode>)
        ensures
            mode == ColorMode::spec_from_name(value@),
    {
        if str_eq(value, "default") {
            Some(ColorMode::Default)
        } else if str_eq(value, "bt2100") {
            Some(ColorMode::Bt2100)
        } else {
            None
        }
    }
}

/// The names of color modes.
pub open spec fn color_mode_names(modes: Seq<ColorMode>) -> Seq<Seq<char>> {
    modes.map_values(|m: ColorMode| m.spec_name())
}

/// The names of color modes, separated by commas, as messages list them.
pub fn color_mode_list(modes: &Vec<ColorMode>) -> (r: String)
    ensures
        r@ == crate::text::join_texts(color_mode_names(modes@), ", "@),
{
    let mut names: Vec<String> = Vec::new();
    let mut i: usize = 0;
    while i < modes.len()
        invariant
            0 <= i <= modes@.len(),
            crate::text::string_views(names@) =~= color_mode_names(modes@).take(i as int),
        decreases modes@.len() - i,
    {
        let ghost before = names@;
        let name = modes[i].as_str().to_owned();
        names.push(name);
        assert(crate::text::string_views(names@) =~= crate::text::string_views(before).push(modes@[i as int].spec_name()));
        assert(color_mode_names(modes@).take(i + 1) =~= color_mode_names(modes@).take(i as int).push(
            modes@[i as int].spec_name(),
        ));
        i = i + 1;
    }
    assert(color_mode_names(modes@).take(modes@.len() as int) =~= color_mode_names(modes@));
    let mut r = String::new();
    crate::text::push_joined(&mut r, &names, ", ");
    r
}

/// The raw value of a D-Bus property truncated to 32 bits, as `value as u32`.
pub open spec fn truncate_u32(value: u64) -> int {
    (value as int) % 0x1_0000_0000
}

/// Truncates a raw property value to 32 bits (`value as u32`).
pub fn truncate_to_u32(value: u64) -> (r: u32)
    ensures
        r == truncate_u32(value),
{
    (value % 0x1_0000_0000) as u32
}

/// Reads a color mode out of a raw property value the way `u32::try_from`
/// followed by `ColorMode::from_raw` does: out-of-range values give `None`.
pub fn color_mode_from_property(value: u64) -> (mode: Option<ColorMode>)
    ensures
        mode == ColorMode::spec_from_raw(value as int),
{
    if value > 0xffff_ffff {
        None
    } else {
        ColorMode::from_raw(value as u32)
    }
}

// ---------------------------------------------------------------------------
// Monitor configuration sent to Mutter
// ---------------------------------------------------------------------------

/// A typed property of a monitor in an `ApplyMonitorsConfig` request.
#[derive(Debug, Clone, Copy, PartialEq, Eq, Structural)]
pub enum ApplyMonitorProperty {
    ColorMode(ColorMode),
}

/// One monitor of a logical monitor in an `ApplyMonitorsConfig` request.
#[derive(Debug)]
pub struct ApplyMonitor {
    pub connector: String,
    pub mode_id: String,
    pub properties: Vec<ApplyMonitorProperty>,
}

/// An `ApplyMonitor` as plain values.
pub struct ApplyMonitorView {
    pub connector: Seq<char>,
    pub mode_id: Seq<char>,
    pub properties: Seq<ApplyMonitorProperty>,
}

impl View for ApplyMonitor {
    type V = ApplyMonitorView;

    open spec fn view(&self) -> ApplyMonitorView {
        ApplyMonitorView {
            connector: self.connector@,
            mode_id: self.mode_id@,
            properties: self.properties@,
        }
    }
}

/// One logical monitor of an `ApplyMonitorsConfig` request. `scale` is the
/// bit pattern of the `f64` scale.
#[derive(Debug)]
pub struct ApplyConfig {
    pub x_pos: i32,
    pub y_pos: i32,
    pub scale: u64,
    pub transform: u32,
    pub primary: bool,
    pub monitors: Vec<ApplyMonitor>,
}

/// An `ApplyConfig` as plain values.
pub struct ApplyConfigView {
    pub x_pos: i32,
    pub y_pos: i32,
    pub scale: u64,
    pub transform: u32,
    pub primary: bool,
    pub monitors: Seq<ApplyMonitorView>,
}

pub open spec fn monitor_views(monitors: Seq<ApplyMonitor>) -> Seq<ApplyMonitorView> {
    monitors.map_values(|m: ApplyMonitor| m@)
}

/// The plain values of a list of logical monitors.
pub open spec fn config_views(configs: Seq<ApplyConfig>) -> Seq<ApplyConfigView> {
    configs.map_values(|c: ApplyConfig| c@)
}

impl View for ApplyConfig {
    type V = ApplyConfigView;

    open spec fn view(&self) -> ApplyConfigView {
        ApplyConfigView {
            x_pos: self.x_pos,
            y_pos: self.y_pos,
            scale: self.scale,
            transform: self.transform,
            primary: self.primary,
            monitors: monitor_views(self.monitors@),
        }
    }
}

fn copy_properties(properties: &Vec<ApplyMonitorProperty>) -> (r: Vec<ApplyMonitorProperty>)
    ensures
        r@ == properties@,
{
    let mut r: Vec<ApplyMonitorProperty> = Vec::new();
    let mut i: usize = 0;
    while i < properties.len()
        invariant
            0 <= i <= properties@.len(),
            r@ == properties@.take(i as int),
        decreases properties@.len() - i,
    {
        r.push(properties[i]);
        assert(properties@.take(i + 1) =~= properties@.take(i as int).push(properties@[i as int]));
        i = i + 1;
    }
    assert(properties@.take(properties@.len() as int) =~= properties@);
    r
}

impl ApplyMonitor {
    /// A copy of this monitor.
    pub fn duplicate(&self) -> (r: ApplyMonitor)
        ensures
            r@ == self@,
    {
        ApplyMonitor {
            connector: self.connector.clone(),
            mode_id: self.mode_id.clone(),
            properties: copy_properties(&self.properties),
        }
    }
}

impl ApplyConfig {
    /// A copy of this logical monitor.
    pub fn duplicate(&self) -> (r: ApplyConfig)
        ensures
            r@ == self@,
    {
        let mut monitors: Vec<ApplyMonitor> = Vec::new();
        let mut i: usize = 0;
        while i < self.monitors.len()
            invariant
                0 <= i <= self.monitors@.len(),
                monitor_views(monitors@) == monitor_views(self.monitors@).take(i as int),
            decreases self.monitors@.len() - i,
        {
            let ghost before = monitors@;
            monitors.push(self.monitors[i].duplicate());
            assert(monitor_views(monitors@) =~= monitor_views(before).push(self.monitors@[i as int]@));
            assert(monitor_views(self.monitors@).take(i + 1) =~= monitor_views(self.monitors@).take(i as int).push(self.monitors@[i as int]@));
            i = i + 1;
        }
        assert(monitor_views(self.monitors@).take(self.monitors@.len() as int) =~= monitor_views(self.monitors@));
        ApplyConfig {
            x_pos: self.x_pos,
            y_pos: self.y_pos,
            scale: self.scale,
            transform: self.transform,
            primary: self.primary,
            monitors,
        }
    }

    /// The logical monitor as it stands, with the physical monitor in its
    /// current mode (the first mode marked current) as its one monitor.
    pub fn from(
        logical_monitor: &crate::display_config::LogicalMonitor,
        physical_monitor: &crate::display_config::PhysicalMonitor,
    ) -> (r: ApplyConfig)
        requires
            crate::cli::modify::first_current(physical_monitor.modes@) < physical_monitor.modes@.len(),
        ensures
            r.x_pos == logical_monitor.x,
            r.y_pos == logical_monitor.y,
            r.scale == logical_monitor.scale,
            r.transform == logical_monitor.transform,
            r.primary == logical_monitor.primary,
            r.monitors@.len() == 1,
            r.monitors@[0].connector@ == physical_monitor.connector@,
            r.monitors@[0].mode_id@ == physical_monitor.modes@[crate::cli::modify::first_current(
                physical_monitor.modes@,
            )].id@,
            r.monitors@[0].properties@.len() == 0,
    {
        let modes = &physical_monitor.modes;
        let ghost pred = |i: int| modes@[i].known_properties.is_current;
        let mut i: usize = 0;
        while i < modes.len() && !modes[i].known_properties.is_current
            invariant
                0 <= i <= modes@.len(),
                pred == (|i: int| modes@[i].known_properties.is_current),
                forall|j: int| 0 <= j < i ==> !#[trigger] pred(j),
            decreases modes@.len() - i,
        {
            i = i + 1;
        }
        proof {
            crate::search::lemma_first_index(modes@.len(), pred, i as int);
        }
        let mut monitors: Vec<ApplyMonitor> = Vec::new();
        monitors.push(
            ApplyMonitor {
                connector: physical_monitor.connector.clone(),
                mode_id: modes[i].id.clone(),
                properties: Vec::new(),
            },
        );
        ApplyConfig {
            x_pos: logical_monitor.x,
            y_pos: logical_monitor.y,
            scale: logical_monitor.scale,
            transform: logical_monitor.transform,
            primary: logical_monitor.primary,
            monitors,
        }
    }
}

/// A copy of a list of logical monitors.
pub fn duplicate_configs(configs: &Vec<ApplyConfig>) -> (r: Vec<ApplyConfig>)
    ensures
        config_views(r@) == config_views(configs@),
{
    let mut r: Vec<ApplyConfig> = Vec::new();
    let mut i: usize = 0;
    while i < configs.len()
        invariant
            0 <= i <= configs@.len(),
            config_views(r@) == config_views(configs@).take(i as int),
        decreases configs@.len() - i,
    {
        let ghost before = r@;
        r.push(configs[i].duplicate());
        assert(config_views(r@) =~= config_views(before).push(configs@[i as int]@));
        assert(config_views(configs@).take(i + 1) =~= config_views(configs@).take(i as int).push(configs@[i as int]@));
        i = i + 1;
    }
    assert(config_views(configs@).take(configs@.len() as int) =~= config_views(configs@));
    r
}

// ---------------------------------------------------------------------------
// Native display state
// ---------------------------------------------------------------------------

/// Mutter's hardware backlight state: a serial and the connectors it covers.
#[derive(Debug, Clone)]
pub struct BacklightState {
    pub serial: u32,
    pub connectors: Vec<BacklightConnector>,
}

#[derive(Debug, Clone)]
pub struct BacklightConnector {
    pub connector: String,
    pub active: bool,
}

/// A luminance preference. `luminance` and `default` are `f64` bit patterns.
#[derive(Debug, Clone)]
pub struct LuminanceState {
    pub connector: String,
    pub color_mode: ColorMode,
    pub luminance: u64,
    pub default: u64,
    pub is_unset: bool,
}

/// Mutter's native display controls.
#[derive(Debug, Clone)]
pub struct NativeDisplayState {
    pub power_save_mode: PowerSaveMode,
    pub panel_orientation_managed: bool,
    pub apply_monitors_config_allowed: Option<bool>,
    pub night_light_supported: Option<bool>,
    pub has_external_monitor: Option<bool>,
    pub backlight: Option<BacklightState>,
    pub luminance: Vec<LuminanceState>,
}

// ---------------------------------------------------------------------------
// Gamma ramps
// ---------------------------------------------------------------------------

/// A CRTC gamma ramp: one 16-bit lookup table per channel.
#[derive(Debug, Clone)]
pub struct Gamma {
    pub red: Vec<u16>,
    pub green: Vec<u16>,
    pub blue: Vec<u16>,
}

/// Whether two values differ by at most one.
pub open spec fn within_one(a: u16, b: u16) -> bool {
    -1 <= a - b <= 1
}

/// Whether two channels have the same length and agree entry by entry to within one.
pub open spec fn channels_match(left: Seq<u16>, right: Seq<u16>) -> bool {
    left.len() == right.len() && forall|i: int| 0 <= i < left.len() ==> within_one(
        #[trigger] left[i],
        right[i],
    )
}

/// The identity ramp entry at `index` of a channel whose last index is `last`:
/// `index / last * 65535`, rounded to the nearest integer, halves away from zero.
pub open spec fn identity_entry(index: int, last: int) -> int {
    (2 * index * 65535 + last) / (2 * last)
}

/// Whether a channel is the identity ramp, to within one.
pub open spec fn identity_channel(channel: Seq<u16>) -> bool {
    channel.len() >= 2 && forall|i: int|
        0 <= i < channel.len() ==> -1 <= #[trigger] channel[i] - identity_entry(i, channel.len() - 1)
            <= 1
}

fn channels_match_exec(left: &Vec<u16>, right: &Vec<u16>) -> (r: bool)
    ensures
        r == channels_match(left@, right@),
{
    if left.len() != right.len() {
        return false;
    }
    let mut i: usize = 0;
    while i < left.len()
        invariant
            left@.len() == right@.len(),
            0 <= i <= left@.len(),
            forall|j: int| 0 <= j < i ==> within_one(#[trigger] left@[j], right@[j]),
        decreases left@.len() - i,
    {
        let a = left[i];
        let b = right[i];
        let diff = if a >= b { a - b } else { b - a };
        if diff > 1 {
            return false;
        }
        i = i + 1;
    }
    true
}

fn identity_channel_exec(channel: &Vec<u16>) -> (r: bool)
    ensures
        r == identity_channel(channel@),
{
    if channel.len() < 2 {
        return false;
    }
    let n = channel.len();
    let last: u128 = (n - 1) as u128;
    let mut i: usize = 0;
    while i < n
        invariant
            n == channel@.len(),
            2 <= n,
            last == n - 1,
            n <= usize::MAX,
            0 <= i <= n,
            forall|j: int| 0 <= j < i ==> -1 <= #[trigger] channel@[j] - identity_entry(j, last as int) <= 1,
        decreases n - i,
    {
        let index = i as u128;
        assert(index * 131070 <= 0x1_0000_0000_0000_0000 * 131070) by (nonlinear_arith)
            requires index <= 0x1_0000_0000_0000_0000;
        let expected = (2 * index * 65535 + last) / (2 * last);
        let value = channel[i] as u128;
        let diff = if value >= expected { value - expected } else { expected - value };
        if diff > 1 {
            return false;
        }
        i = i + 1;
    }
    true
}

/// Per-channel software gamma; each field is an `f64` bit pattern.
#[derive(Clone, Copy, Debug, PartialEq, Eq, Structural)]
pub struct GammaAdjustment {
    pub red: u64,
    pub green: u64,
    pub blue: u64,
}

/// Bit pattern of the largest `f64` below one by more than half an epsilon: `1 - 2^-52`.
pub const ONE_MINUS_EPSILON_BITS: u64 = 0x3fef_ffff_ffff_fffe;

/// Bit pattern of `1 + 2^-52`, the next `f64` above one.
pub const ONE_PLUS_EPSILON_BITS: u64 = 0x3ff0_0000_0000_0001;

/// Whether an `f64` differs from one by at most `f64::EPSILON`. The `f64`
/// values so near one are exactly those whose bit patterns lie between
/// `1 - 2^-52` and `1 + 2^-52`: positive values order as their bit patterns,
/// and `x - 1.0` is exact for `x` in `[0.5, 2]`.
pub open spec fn near_one(bits: u64) -> bool {
    ONE_MINUS_EPSILON_BITS <= bits <= ONE_PLUS_EPSILON_BITS
}

impl GammaAdjustment {
    /// No adjustment: one on every channel.
    pub fn identity() -> (r: GammaAdjustment)
        ensures
            r.red == ONE_BITS && r.green == ONE_BITS && r.blue == ONE_BITS,
    {
        GammaAdjustment { red: ONE_BITS, green: ONE_BITS, blue: ONE_BITS }
    }

    pub open spec fn spec_is_identity(self) -> bool {
        near_one(self.red) && near_one(self.green) && near_one(self.blue)
    }

    /// Whether every channel is one, to within `f64::EPSILON`.
    pub fn is_identity(self) -> (r: bool)
        ensures
            r == self.spec_is_identity(),
    {
        ONE_MINUS_EPSILON_BITS <= self.red && self.red <= ONE_PLUS_EPSILON_BITS && ONE_MINUS_EPSILON_BITS
            <= self.green && self.green <= ONE_PLUS_EPSILON_BITS && ONE_MINUS_EPSILON_BITS <= self.blue
            && self.blue <= ONE_PLUS_EPSILON_BITS
    }
}

impl View for Gamma {
    type V = (Seq<u16>, Seq<u16>, Seq<u16>);

    open spec fn view(&self) -> (Seq<u16>, Seq<u16>, Seq<u16>) {
        (self.red@, self.green@, self.blue@)
    }
}

fn copy_channel(channel: &Vec<u16>) -> (r: Vec<u16>)
    ensures
        r@ == channel@,
{
    let mut r: Vec<u16> = Vec::new();
    let mut i: usize = 0;
    while i < channel.len()
        invariant
            0 <= i <= channel@.len(),
            r@ == channel@.take(i as int),
        decreases channel@.len() - i,
    {
        r.push(channel[i]);
        assert(channel@.take(i + 1) =~= channel@.take(i as int).push(channel@[i as int]));
        i = i + 1;
    }
    assert(channel@.take(i as int) =~= channel@);
    r
}

impl Gamma {
    /// A copy of this ramp.
    pub fn duplicate(&self) -> (r: Gamma)
        ensures
            r@ == self@,
    {
        Gamma { red: copy_channel(&self.red), green: copy_channel(&self.green), blue: copy_channel(&self.blue) }
    }

    pub fn from(result: (Vec<u16>, Vec<u16>, Vec<u16>)) -> (g: Gamma)
        ensures
            g.red@ == result.0@,
            g.green@ == result.1@,
            g.blue@ == result.2@,
    {
        Gamma { red: result.0, green: result.1, blue: result.2 }
    }

    /// Whether all three channels agree with `other`'s to within one.
    pub open spec fn spec_approx_eq(&self, other: &Gamma) -> bool {
        &&& channels_match(self.red@, other.red@)
        &&& channels_match(self.green@, other.green@)
        &&& channels_match(self.blue@, other.blue@)
    }

    /// Whether every channel is the identity ramp, to within one.
    pub open spec fn spec_is_identity(&self) -> bool {
        &&& identity_channel(self.red@)
        &&& identity_channel(self.green@)
        &&& identity_channel(self.blue@)
    }

    pub fn approx_eq(&self, other: &Gamma) -> (r: bool)
        ensures
            r == self.spec_approx_eq(other),
    {
        channels_match_exec(&self.red, &other.red) && channels_match_exec(&self.green, &other.green)
            && channels_match_exec(&self.blue, &other.blue)
    }

    pub fn is_identity(&self) -> (r: bool)
        ensures
            r == self.spec_is_identity(),
    {
        identity_channel_exec(&self.red) && identity_channel_exec(&self.green)
            && identity_channel_exec(&self.blue)
    }
}

/// Agreement to within one is reflexive and symmetric.
pub proof fn lemma_approx_eq_reflexive_symmetric(a: &Gamma, b: &Gamma)
    ensures
        a.spec_approx_eq(a),
        a.spec_approx_eq(b) == b.spec_approx_eq(a),
{
}

// ---------------------------------------------------------------------------
// Names and values read back
// ---------------------------------------------------------------------------

/// Every power-save mode reads back from its name, and no two modes share a
/// D-Bus value.
pub proof fn lemma_power_save_mode_names(m: PowerSaveMode, n: PowerSaveMode)
    ensures
        PowerSaveMode::spec_from_name(m.spec_name()) == Some(m),
        m.spec_raw_value() == n.spec_raw_value() ==> m == n,
{
    reveal_strlit("unknown");
    reveal_strlit("on");
    reveal_strlit("standby");
    reveal_strlit("suspend");
    reveal_strlit("off");
    assert("on"@.len() == 2 && "off"@.len() == 3 && "standby"@.len() == 7 && "suspend"@.len() == 7
        && "unknown"@.len() == 7);
    assert("standby"@[1] == 't' && "suspend"@[1] == 'u' && "unknown"@[1] == 'n');
}

/// Every brightness filter reads back from its name.
pub proof fn lemma_brightness_filter_names(f: BrightnessFilter)
    ensures
        BrightnessFilter::spec_from_name(f.spec_name()) == Some(f),
{
    reveal_strlit("linear");
    reveal_strlit("gamma");
    reveal_strlit("filmic");
    assert("linear"@.len() == 6 && "gamma"@.len() == 5 && "filmic"@.len() == 6);
    assert("linear"@[0] == 'l' && "filmic"@[0] == 'f');
}

/// Every color mode reads back from its name and from its D-Bus value.
pub proof fn lemma_color_mode_names(m: ColorMode)
    ensures
        ColorMode::spec_from_name(m.spec_name()) == Some(m),
        ColorMode::spec_from_raw(m.spec_raw_value() as int) == Some(m),
{
    reveal_strlit("default");
    reveal_strlit("bt2100");
    assert("default"@.len() == 7 && "bt2100"@.len() == 6);
}

} // verus!

//! Restoring a saved profile: matching the profile's monitors to the connected
//! hardware by vendor, product and serial, choosing modes and color modes, and
//! building the layout request and the software color to restore.

use vstd::prelude::*;

use crate::cli::modify::{
    contains_color_mode, current_color_mode, current_color_mode_spec, float_order, modes_for_resolution,
    resolution_candidates, supported_color_modes, supported_color_modes_spec, candidate_view, indices_valid,
    Order,
};
use crate::display_config::proxied_methods::{
    monitor_views, ApplyConfig, ApplyConfigView, ApplyMonitor, ApplyMonitorProperty, ApplyMonitorView,
    BrightnessFilter, ColorMode, GammaAdjustment,
};
use crate::display_config::{DisplayConfig, LayoutMode, Mode, PhysicalMonitor};
use crate::float_bits::{FloatOrder, ONE_BITS};
use crate::search::{first_index, lemma_first_index};
use crate::text::{push_str, str_eq};

verus! {

/// The oldest profile schema that `apply` reads.
pub const MIN_SUPPORTED_SCHEMA_VERSION: u32 = 4;

/// The newest profile schema that `apply` reads.
pub const MAX_SUPPORTED_SCHEMA_VERSION: u32 = 5;

// ---------------------------------------------------------------------------
// Monitor identities
// ---------------------------------------------------------------------------

/// A monitor as vendor, product and serial: what a profile matches hardware by.
#[derive(Debug)]
pub struct MonitorIdentity {
    pub vendor: String,
    pub product: String,
    pub serial: String,
}

/// A monitor identity as plain values: vendor, product and serial.
pub type IdentityView = (Seq<char>, Seq<char>, Seq<char>);

impl View for MonitorIdentity {
    type V = IdentityView;

    open spec fn view(&self) -> IdentityView {
        (self.vendor@, self.product@, self.serial@)
    }
}

impl MonitorIdentity {
    /// A copy of this identity.
    pub fn duplicate(&self) -> (r: MonitorIdentity)
        ensures
            r@ == self@,
    {
        MonitorIdentity { vendor: self.vendor.clone(), product: self.product.clone(), serial: self.serial.clone() }
    }

    /// The identity as text: vendor, product and serial, separated by spaces.
    pub fn to_text(&self) -> (s: String)
        ensures
            s@ == self.vendor@ + " "@ + self.product@ + " "@ + self.serial@,
    {
        let mut s = self.vendor.clone();
        push_str(&mut s, " ");
        push_str(&mut s, self.product.as_str());
        push_str(&mut s, " ");
        push_str(&mut s, self.serial.as_str());
        s
    }
}

/// Whether two identities are the same.
pub fn same_identity(a: &MonitorIdentity, b: &MonitorIdentity) -> (r: bool)
    ensures
        r == (a@ == b@),
{
    str_eq(a.vendor.as_str(), b.vendor.as_str()) && str_eq(a.product.as_str(), b.product.as_str()) && str_eq(
        a.serial.as_str(),
        b.serial.as_str(),
    )
}

pub fn identity_from_parts(vendor: &str, product: &str, serial: &str) -> (r: MonitorIdentity)
    ensures
        r@ == (vendor@, product@, serial@),
{
    MonitorIdentity { vendor: vendor.to_owned(), product: product.to_owned(), serial: serial.to_owned() }
}

// ---------------------------------------------------------------------------
// Profiles
// ---------------------------------------------------------------------------

/// A saved profile, as `query --json` writes it. Every `f64` is held as its bit pattern.
#[derive(Debug)]
pub struct Profile {
    pub schema_version: u32,
    pub layout_mode: String,
    pub logical_monitors: Vec<ProfileLogicalMonitor>,
    pub monitors: Vec<ProfileMonitor>,
}

#[derive(Debug)]
pub struct ProfileLogicalMonitor {
    pub x: i32,
    pub y: i32,
    pub scale: u64,
    pub rotation: String,
    pub reflection: String,
    pub primary: bool,
    pub monitors: Vec<ProfileAssociatedMonitor>,
}

#[derive(Debug)]
pub struct ProfileAssociatedMonitor {
    pub connector: String,
    pub vendor: String,
    pub product: String,
    pub serial: String,
}

#[derive(Debug)]
pub struct ProfileMonitor {
    pub connector: String,
    pub enabled: bool,
    pub vendor: String,
    pub product: String,
    pub serial: String,
    pub color_mode: Option<String>,
    pub modes: Vec<ProfileMode>,
    pub software_brightness: Option<ProfileSoftwareBrightness>,
    pub software_gamma: Option<ProfileSoftwareGamma>,
}

#[derive(Debug)]
pub struct ProfileMode {
    pub id: String,
    pub width: i32,
    pub height: i32,
    pub refresh_rate: u64,
    pub is_current: bool,
}

#[derive(Debug)]
pub struct ProfileSoftwareBrightness {
    pub state: String,
    pub brightness: Option<u64>,
    pub filter: Option<String>,
}

#[derive(Debug)]
pub struct ProfileSoftwareGamma {
    pub state: String,
    pub red: Option<u64>,
    pub green: Option<u64>,
    pub blue: Option<u64>,
}

/// The software color to restore on a monitor.
#[derive(Debug, Clone, Copy, PartialEq, Eq, Structural)]
pub struct DesiredSoftwareColor {
    pub brightness: Option<u64>,
    pub filter: BrightnessFilter,
    pub gamma_adjustment: Option<GammaAdjustment>,
}

/// The reflection of a logical monitor that names none.
pub fn default_reflection() -> (r: String)
    ensures
        r@ == "normal"@,
{
    "normal".to_owned()
}

pub open spec fn associated_identity_of(m: ProfileAssociatedMonitor) -> IdentityView {
    (m.vendor@, m.product@, m.serial@)
}

pub open spec fn profile_identity_of(m: ProfileMonitor) -> IdentityView {
    (m.vendor@, m.product@, m.serial@)
}

pub open spec fn current_identity_of(m: PhysicalMonitor) -> IdentityView {
    (m.vendor@, m.product@, m.serial@)
}

pub fn associated_identity(monitor: &ProfileAssociatedMonitor) -> (r: MonitorIdentity)
    ensures
        r@ == associated_identity_of(*monitor),
{
    identity_from_parts(monitor.vendor.as_str(), monitor.product.as_str(), monitor.serial.as_str())
}

pub fn profile_identity(monitor: &ProfileMonitor) -> (r: MonitorIdentity)
    ensures
        r@ == profile_identity_of(*monitor),
{
    identity_from_parts(monitor.vendor.as_str(), monitor.product.as_str(), monitor.serial.as_str())
}

pub fn current_identity(monitor: &PhysicalMonitor) -> (r: MonitorIdentity)
    ensures
        r@ == current_identity_of(*monitor),
{
    identity_from_parts(monitor.vendor.as_str(), monitor.product.as_str(), monitor.serial.as_str())
}

// ---------------------------------------------------------------------------
// Errors
// ---------------------------------------------------------------------------

/// Why a profile cannot be applied.
#[derive(Debug)]
pub enum Error {
    ReadFile { path: String, message: String },
    ParseProfile { path: String, message: String },
    UnsupportedSchemaVersion(u32),
    UnsupportedLayoutMode { profile: String, current: String },
    DuplicateCurrentMonitorIdentity(MonitorIdentity),
    DuplicateProfileMonitorIdentity(MonitorIdentity),
    MissingProfileMonitor(MonitorIdentity),
    MissingCurrentMonitor(MonitorIdentity),
    ProfileMonitorDisabled(MonitorIdentity),
    DuplicateActiveMonitor(MonitorIdentity),
    MissingCurrentMode(MonitorIdentity),
    ModeUnavailable { identity: MonitorIdentity, requested: String },
    InvalidRotation(String),
    InvalidReflection(String),
    InvalidColorMode(String),
    ColorModeUnavailable { identity: MonitorIdentity, requested: ColorMode, supported: Vec<ColorMode> },
}

/// An `Error` as plain values.
pub enum Failure {
    ReadFile(Seq<char>, Seq<char>),
    ParseProfile(Seq<char>, Seq<char>),
    UnsupportedSchemaVersion(u32),
    UnsupportedLayoutMode(Seq<char>, Seq<char>),
    DuplicateCurrentMonitorIdentity(IdentityView),
    DuplicateProfileMonitorIdentity(IdentityView),
    MissingProfileMonitor(IdentityView),
    MissingCurrentMonitor(IdentityView),
    ProfileMonitorDisabled(IdentityView),
    DuplicateActiveMonitor(IdentityView),
    MissingCurrentMode(IdentityView),
    ModeUnavailable(IdentityView, Seq<char>),
    InvalidRotation(Seq<char>),
    InvalidReflection(Seq<char>),
    InvalidColorMode(Seq<char>),
    ColorModeUnavailable(IdentityView, ColorMode, Seq<ColorMode>),
}

impl View for Error {
    type V = Failure;

    open spec fn view(&self) -> Failure {
        match self {
            Error::ReadFile { path, message } => Failure::ReadFile(path@, message@),
            Error::ParseProfile { path, message } => Failure::ParseProfile(path@, message@),
            Error::UnsupportedSchemaVersion(v) => Failure::UnsupportedSchemaVersion(*v),
            Error::UnsupportedLayoutMode { profile, current } => Failure::UnsupportedLayoutMode(profile@, current@),
            Error::DuplicateCurrentMonitorIdentity(i) => Failure::DuplicateCurrentMonitorIdentity(i@),
            Error::DuplicateProfileMonitorIdentity(i) => Failure::DuplicateProfileMonitorIdentity(i@),
            Error::MissingProfileMonitor(i) => Failure::MissingProfileMonitor(i@),
            Error::MissingCurrentMonitor(i) => Failure::MissingCurrentMonitor(i@),
            Error::ProfileMonitorDisabled(i) => Failure::ProfileMonitorDisabled(i@),
            Error::DuplicateActiveMonitor(i) => Failure::DuplicateActiveMonitor(i@),
            Error::MissingCurrentMode(i) => Failure::MissingCurrentMode(i@),
            Error::ModeUnavailable { identity, requested } => Failure::ModeUnavailable(identity@, requested@),
            Error::InvalidRotation(v) => Failure::InvalidRotation(v@),
            Error::InvalidReflection(v) => Failure::InvalidReflection(v@),
            Error::InvalidColorMode(v) => Failure::InvalidColorMode(v@),
            Error::ColorModeUnavailable { identity, requested, supported } => Failure::ColorModeUnavailable(
                identity@,
                *requested,
                supported@,
            ),
        }
    }
}

/// An identity as its text: vendor, product and serial, separated by spaces.
pub open spec fn identity_text(i: IdentityView) -> Seq<char> {
    i.0 + " "@ + i.1 + " "@ + i.2
}

/// What an error on an identity says: the text before and after the identity.
pub open spec fn identity_message(head: Seq<char>, i: IdentityView, tail: Seq<char>) -> Seq<char> {
    head + identity_text(i) + tail
}

impl Error {
    /// What the error says to the user.
    pub open spec fn message_text(&self) -> Seq<char> {
        match self@ {
            Failure::ReadFile(path, message) => "fatal: failed to read profile "@ + path + ": "@ + message,
            Failure::ParseProfile(path, message) => "fatal: failed to parse profile "@ + path + ": "@ + message,
            Failure::UnsupportedSchemaVersion(v) => "fatal: unsupported profile schema version "@
                + crate::text::decimal_digits(v as nat) + ". Supported versions are "@
                + crate::text::decimal_digits(MIN_SUPPORTED_SCHEMA_VERSION as nat) + " through "@
                + crate::text::decimal_digits(MAX_SUPPORTED_SCHEMA_VERSION as nat) + "."@,
            Failure::UnsupportedLayoutMode(profile, current) => "fatal: profile layout_mode "@ + profile
                + " does not match current layout_mode "@ + current + ". Changing layout_mode is not implemented."@,
            Failure::DuplicateCurrentMonitorIdentity(i) => identity_message(
                "fatal: current hardware has duplicate monitor identity "@,
                i,
                "."@,
            ),
            Failure::DuplicateProfileMonitorIdentity(i) => identity_message(
                "fatal: profile contains duplicate monitor identity "@,
                i,
                "."@,
            ),
            Failure::MissingProfileMonitor(i) => identity_message(
                "fatal: profile logical monitor references "@,
                i,
                ", but no matching monitor entry exists in the profile."@,
            ),
            Failure::MissingCurrentMonitor(i) => identity_message(
                "fatal: profile requires monitor "@,
                i,
                ", but it is not connected on current hardware."@,
            ),
            Failure::ProfileMonitorDisabled(i) => identity_message(
                "fatal: profile marks "@,
                i,
                " as disabled but also uses it in an active logical monitor."@,
            ),
            Failure::DuplicateActiveMonitor(i) => identity_message(
                "fatal: profile uses monitor "@,
                i,
                " in more than one active logical monitor."@,
            ),
            Failure::MissingCurrentMode(i) => identity_message(
                "fatal: profile monitor "@,
                i,
                " does not have a current mode marked in the saved JSON."@,
            ),
            Failure::ModeUnavailable(i, requested) => identity_message(
                "fatal: current hardware for "@,
                i,
                " does not provide a compatible mode for profile mode "@,
            ) + requested + "."@,
            Failure::InvalidRotation(v) => "fatal: profile uses unsupported rotation "@ + v
                + ". Expected normal, right, inverted, or left."@,
            Failure::InvalidReflection(v) => "fatal: profile uses unsupported reflection "@ + v
                + ". Expected normal, x, y, or xy."@,
            Failure::InvalidColorMode(v) => "fatal: profile uses unsupported color mode "@ + v + "."@,
            Failure::ColorModeUnavailable(i, requested, supported) => identity_message(
                "fatal: "@,
                i,
                " does not support color mode "@,
            ) + requested.spec_name() + ". Supported color modes are "@ + crate::text::join_texts(
                crate::display_config::proxied_methods::color_mode_names(supported),
                ", "@,
            ) + "."@,
        }
    }

    pub fn message(&self) -> (r: String)
        ensures
            r@ == self.message_text(),
    {
        let mut r: String;
        match self {
            Error::ReadFile { path, message } => {
                r = "fatal: failed to read profile ".to_owned();
                push_str(&mut r, path.as_str());
                push_str(&mut r, ": ");
                push_str(&mut r, message.as_str());
            },
            Error::ParseProfile { path, message } => {
                r = "fatal: failed to parse profile ".to_owned();
                push_str(&mut r, path.as_str());
                push_str(&mut r, ": ");
                push_str(&mut r, message.as_str());
            },
            Error::UnsupportedSchemaVersion(v) => {
                r = "fatal: unsupported profile schema version ".to_owned();
                crate::text::push_decimal(&mut r, *v as u64);
                push_str(&mut r, ". Supported versions are ");
                crate::text::push_decimal(&mut r, MIN_SUPPORTED_SCHEMA_VERSION as u64);
                push_str(&mut r, " through ");
                crate::text::push_decimal(&mut r, MAX_SUPPORTED_SCHEMA_VERSION as u64);
                push_str(&mut r, ".");
            },
            Error::UnsupportedLayoutMode { profile, current } => {
                r = "fatal: profile layout_mode ".to_owned();
                push_str(&mut r, profile.as_str());
                push_str(&mut r, " does not match current layout_mode ");
                push_str(&mut r, current.as_str());
                push_str(&mut r, ". Changing layout_mode is not implemented.");
            },
            Error::DuplicateCurrentMonitorIdentity(i) => {
                r = "fatal: current hardware has duplicate monitor identity ".to_owned();
                push_str(&mut r, i.to_text().as_str());
                push_str(&mut r, ".");
            },
            Error::DuplicateProfileMonitorIdentity(i) => {
                r = "fatal: profile contains duplicate monitor identity ".to_owned();
                push_str(&mut r, i.to_text().as_str());
                push_str(&mut r, ".");
            },
            Error::MissingProfileMonitor(i) => {
                r = "fatal: profile logical monitor references ".to_owned();
                push_str(&mut r, i.to_text().as_str());
                push_str(&mut r, ", but no matching monitor entry exists in the profile.");
            },
            Error::MissingCurrentMonitor(i) => {
                r = "fatal: profile requires monitor ".to_owned();
                push_str(&mut r, i.to_text().as_str());
                push_str(&mut r, ", but it is not connected on current hardware.");
            },
            Error::ProfileMonitorDisabled(i) => {
                r = "fatal: profile marks ".to_owned();
                push_str(&mut r, i.to_text().as_str());
                push_str(&mut r, " as disabled but also uses it in an active logical monitor.");
            },
            Error::DuplicateActiveMonitor(i) => {
                r = "fatal: profile uses monitor ".to_owned();
                push_str(&mut r, i.to_text().as_str());
                push_str(&mut r, " in more than one active logical monitor.");
            },
            Error::MissingCurrentMode(i) => {
                r = "fatal: profile monitor ".to_owned();
                push_str(&mut r, i.to_text().as_str());
                push_str(&mut r, " does not have a current mode marked in the saved JSON.");
            },
            Error::ModeUnavailable { identity, requested } => {
                r = "fatal: current hardware for ".to_owned();
                push_str(&mut r, identity.to_text().as_str());
                push_str(&mut r, " does not provide a compatible mode for profile mode ");
                push_str(&mut r, requested.as_str());
                push_str(&mut r, ".");
            },
            Error::InvalidRotation(v) => {
                r = "fatal: profile uses unsupported rotation ".to_owned();
                push_str(&mut r, v.as_str());
                push_str(&mut r, ". Expected normal, right, inverted, or left.");
            },
            Error::InvalidReflection(v) => {
                r = "fatal: profile uses unsupported reflection ".to_owned();
                push_str(&mut r, v.as_str());
                push_str(&mut r, ". Expected normal, x, y, or xy.");
            },
            Error::InvalidColorMode(v) => {
                r = "fatal: profile uses unsupported color mode ".to_owned();
                push_str(&mut r, v.as_str());
                push_str(&mut r, ".");
            },
            Error::ColorModeUnavailable { identity, requested, supported } => {
                r = "fatal: ".to_owned();
                push_str(&mut r, identity.to_text().as_str());
                push_str(&mut r, " does not support color mode ");
                push_str(&mut r, requested.as_str());
                push_str(&mut r, ". Supported color modes are ");
                push_str(&mut r, crate::display_config::proxied_methods::color_mode_list(supported).as_str());
                push_str(&mut r, ".");
            },
        }
        r
    }
}

/// Checks the profile's schema version against the versions that `apply` reads.
pub fn check_schema_version(version: u32) -> (r: Result<(), Error>)
    ensures
        r is Ok <==> MIN_SUPPORTED_SCHEMA_VERSION <= version <= MAX_SUPPORTED_SCHEMA_VERSION,
        r matches Err(e) ==> e@ == Failure::UnsupportedSchemaVersion(version),
{
    if MIN_SUPPORTED_SCHEMA_VERSION <= version && version <= MAX_SUPPORTED_SCHEMA_VERSION {
        Ok(())
    } else {
        Err(Error::UnsupportedSchemaVersion(version))
    }
}

// ---------------------------------------------------------------------------
// Rotation and reflection names
// ---------------------------------------------------------------------------

/// The rotation that a profile names, as the two low transform bits.
pub open spec fn rotation_from_profile_spec(value: Seq<char>) -> Option<u32> {
    if value == "normal"@ {
        Some(0u32)
    } else if value == "right"@ {
        Some(1u32)
    } else if value == "inverted"@ {
        Some(2u32)
    } else if value == "left"@ {
        Some(3u32)
    } else {
        None
    }
}

pub fn rotation_from_profile(value: &str) -> (r: Result<u32, Error>)
    ensures
        match rotation_from_profile_spec(value@) {
            Some(t) => r matches Ok(u) && u == t,
            None => r matches Err(e) && e@ == Failure::InvalidRotation(value@),
        },
{
    if str_eq(value, "normal") {
        Ok(0)
    } else if str_eq(value, "right") {
        Ok(1)
    } else if str_eq(value, "inverted") {
        Ok(2)
    } else if str_eq(value, "left") {
        Ok(3)
    } else {
        Err(Error::InvalidRotation(value.to_owned()))
    }
}

/// The rotation half a turn on from a transform's rotation bits: `(transform + 2) mod 4`.
pub fn rotate_180(transform: u32) -> (r: u32)
    ensures
        r == (transform as int + 2) % 4,
{
    let bits = transform & 3;
    assert(bits == transform % 4 && bits <= 3) by (bit_vector)
        requires
            bits == transform & 3,
    ;
    assert(((bits + 2) as u32) & 3 == (bits + 2) % 4) by (bit_vector)
        requires
            bits <= 3,
    ;
    (bits + 2) & 3
}

/// The transform that a profile's rotation and reflection name: `y` flips
/// the rotation, `x` flips it half a turn on, and `xy` turns it half a turn.
pub open spec fn transform_from_profile_spec(rotation: Seq<char>, reflection: Seq<char>) -> Result<u32, Failure> {
    match rotation_from_profile_spec(rotation) {
        None => Err(Failure::InvalidRotation(rotation)),
        Some(r) => if reflection == "normal"@ {
            Ok(r)
        } else if reflection == "y"@ {
            Ok((r + 4) as u32)
        } else if reflection == "x"@ {
            Ok(((r + 2) % 4 + 4) as u32)
        } else if reflection == "xy"@ {
            Ok(((r + 2) % 4) as u32)
        } else {
            Err(Failure::InvalidReflection(reflection))
        },
    }
}

pub fn transform_from_profile(rotation: &str, reflection: &str) -> (r: Result<u32, Error>)
    ensures
        match transform_from_profile_spec(rotation@, reflection@) {
            Ok(t) => r matches Ok(u) && u == t,
            Err(f) => r matches Err(e) && e@ == f,
        },
{
    let rotation = match rotation_from_profile(rotation) {
        Ok(r) => r,
        Err(e) => return Err(e),
    };
    if str_eq(reflection, "normal") {
        Ok(rotation)
    } else if str_eq(reflection, "y") {
        assert(rotation | 4 == rotation + 4) by (bit_vector)
            requires
                rotation <= 3,
        ;
        Ok(rotation | 4)
    } else if str_eq(reflection, "x") {
        let turned = rotate_180(rotation);
        assert(turned | 4 == turned + 4) by (bit_vector)
            requires
                turned <= 3,
        ;
        Ok(turned | 4)
    } else if str_eq(reflection, "xy") {
        Ok(rotate_180(rotation))
    } else {
        Err(Error::InvalidReflection(reflection.to_owned()))
    }
}

/// The name of a transform's two rotation bits.
pub open spec fn rotation_name(transform: u32) -> Seq<char> {
    let r = transform & 3;
    if r == 0 {
        "normal"@
    } else if r == 1 {
        "right"@
    } else if r == 2 {
        "inverted"@
    } else {
        "left"@
    }
}

/// Whether a transform flips after a half or three-quarter turn: one that
/// its names describe as reflected in `x` after a rotation half a turn back.
pub open spec fn flipped_late(transform: u32) -> bool {
    transform & 4 != 0 && (transform & 3 == 2 || transform & 3 == 3)
}

/// The rotation that a transform's names show: its rotation bits, or, where
/// it flips after a half or three-quarter turn, those bits half a turn back,
/// since the `x` reflection turns half a turn itself.
pub open spec fn named_rotation(transform: u32) -> Seq<char> {
    if flipped_late(transform) {
        rotation_name(((transform & 3) - 2) as u32)
    } else {
        rotation_name(transform)
    }
}

/// The reflection name of a transform: `normal` where it is not flipped, else
/// `x` for the rotations of half a turn and three quarters, `y` for the others.
pub open spec fn reflection_name(transform: u32) -> Seq<char> {
    if transform & 4 == 0 {
        "normal"@
    } else if transform & 3 == 2 || transform & 3 == 3 {
        "x"@
    } else {
        "y"@
    }
}

/// The name of a transform's rotation bits alone.
pub fn rotation_bits_name(transform: u32) -> (r: &'static str)
    ensures
        r@ == rotation_name(transform),
{
    let r = transform & 3;
    if r == 0 {
        "normal"
    } else if r == 1 {
        "right"
    } else if r == 2 {
        "inverted"
    } else {
        "left"
    }
}

/// The rotation that a transform's names show (see `named_rotation`).
pub fn rotation_from_transform(transform: u32) -> (r: &'static str)
    ensures
        r@ == named_rotation(transform),
{
    let bits = transform & 3;
    if transform & 4 != 0 && (bits == 2 || bits == 3) {
        assert(bits <= 3) by (bit_vector)
            requires
                bits == transform & 3,
        ;
        let back = bits - 2;
        assert(back & 3 == back) by (bit_vector)
            requires
                back <= 1,
        ;
        rotation_bits_name(back)
    } else {
        rotation_bits_name(transform)
    }
}

pub fn reflection_from_transform(transform: u32) -> (r: &'static str)
    ensures
        r@ == reflection_name(transform),
{
    if transform & 4 == 0 {
        return "normal";
    }
    let r = transform & 3;
    if r == 2 || r == 3 {
        "x"
    } else {
        "y"
    }
}

/// Naming a transform and reading the names back gives the transform's three
/// low bits again: what `query --json` writes, `apply` restores.
pub proof fn lemma_transform_names_roundtrip(transform: u32)
    ensures
        transform_from_profile_spec(named_rotation(transform), reflection_name(transform)) == Ok::<u32, Failure>(
            transform & 7,
        ),
{
    reveal_strlit("normal");
    reveal_strlit("right");
    reveal_strlit("inverted");
    reveal_strlit("left");
    reveal_strlit("x");
    reveal_strlit("y");
    reveal_strlit("xy");
    let low = transform & 7;
    let bits = transform & 3;
    assert(bits == low % 4 && (transform & 4 == 0) == (low < 4) && low < 8 && bits & 3 == bits) by (bit_vector)
        requires
            low == transform & 7,
            bits == transform & 3,
    ;
    if flipped_late(transform) {
        let back = (bits - 2) as u32;
        assert(back & 3 == back) by (bit_vector)
            requires
                back <= 1,
        ;
    }
    assert("normal"@.len() == 6 && "right"@.len() == 5 && "inverted"@.len() == 8 && "left"@.len() == 4);
    assert("x"@.len() == 1 && "y"@.len() == 1 && "xy"@.len() == 2 && "x"@[0] != "y"@[0]);
}

// ---------------------------------------------------------------------------
// Matching the profile's monitors to the hardware
// ---------------------------------------------------------------------------

pub open spec fn identity_views(ids: Seq<MonitorIdentity>) -> Seq<IdentityView> {
    ids.map_values(|i: MonitorIdentity| i@)
}

pub open spec fn profile_ids(monitors: Seq<ProfileMonitor>) -> Seq<IdentityView> {
    monitors.map_values(|m: ProfileMonitor| profile_identity_of(m))
}

pub open spec fn current_ids(monitors: Seq<PhysicalMonitor>) -> Seq<IdentityView> {
    monitors.map_values(|m: PhysicalMonitor| current_identity_of(m))
}

/// Whether the identity at `i` occurs earlier in `ids`.
pub open spec fn repeats_earlier(ids: Seq<IdentityView>, i: int) -> bool {
    exists|j: int| 0 <= j < i && ids[j] == ids[i]
}

/// The first index whose identity occurs earlier: where building a map from
/// identities meets its first duplicate (`ids.len()` where there is none).
pub open spec fn first_repeat(ids: Seq<IdentityView>) -> int {
    first_index(ids.len(), |i: int| repeats_earlier(ids, i))
}

/// The index of the identity in `ids` (`ids.len()` where it is missing).
pub open spec fn identity_index(ids: Seq<IdentityView>, id: IdentityView) -> int {
    first_index(ids.len(), |i: int| ids[i] == id)
}

fn first_repeat_of(ids: &Vec<MonitorIdentity>) -> (r: usize)
    ensures
        r == first_repeat(identity_views(ids@)),
{
    let ghost views = identity_views(ids@);
    let ghost pred = |i: int| repeats_earlier(views, i);
    let mut i: usize = 0;
    while i < ids.len()
        invariant
            0 <= i <= ids@.len(),
            views == identity_views(ids@),
            pred == (|i: int| repeats_earlier(views, i)),
            forall|k: int| 0 <= k < i ==> !#[trigger] pred(k),
        decreases ids@.len() - i,
    {
        let mut j: usize = 0;
        while j < i
            invariant
                0 <= j <= i < ids@.len(),
                views == identity_views(ids@),
                pred == (|i: int| repeats_earlier(views, i)),
                forall|k: int| 0 <= k < i ==> !#[trigger] pred(k),
                forall|k: int| 0 <= k < j ==> #[trigger] views[k] != views[i as int],
            decreases i - j,
        {
            if same_identity(&ids[j], &ids[i]) {
                assert(views[j as int] == views[i as int]);
                assert(pred(i as int));
                proof {
                    lemma_first_index(ids@.len(), pred, i as int);
                }
                return i;
            }
            j = j + 1;
        }
        assert(!pred(i as int));
        i = i + 1;
    }
    proof {
        lemma_first_index(ids@.len(), pred, i as int);
    }
    i
}

/// The index of the identity among `keys`.
pub fn find_identity(keys: &Vec<MonitorIdentity>, id: &MonitorIdentity) -> (r: usize)
    ensures
        r == identity_index(identity_views(keys@), id@),
{
    let ghost views = identity_views(keys@);
    let ghost pred = |i: int| views[i] == id@;
    let mut i: usize = 0;
    while i < keys.len()
        invariant
            0 <= i <= keys@.len(),
            views == identity_views(keys@),
            pred == (|i: int| views[i] == id@),
            forall|k: int| 0 <= k < i ==> !#[trigger] pred(k),
        decreases keys@.len() - i,
    {
        if same_identity(&keys[i], id) {
            proof {
                lemma_first_index(keys@.len(), pred, i as int);
            }
            return i;
        }
        i = i + 1;
    }
    proof {
        lemma_first_index(keys@.len(), pred, i as int);
    }
    i
}

/// Whether the identity is among `used`.
fn identity_used(used: &Vec<MonitorIdentity>, id: &MonitorIdentity) -> (r: bool)
    ensures
        r == identity_views(used@).contains(id@),
{
    let i = find_identity(used, id);
    proof {
        let views = identity_views(used@);
        crate::search::lemma_first_index_props(views.len(), |i: int| views[i] == id@);
        if views.contains(id@) {
            let w = choose|w: int| 0 <= w < views.len() && views[w] == id@;
            assert((|i: int| views[i] == id@)(w));
        }
    }
    i < used.len()
}

/// The identities of the profile's monitors, in order, refusing the first one
/// that occurs twice.
pub fn profile_monitor_map(profile: &Profile) -> (r: Result<Vec<MonitorIdentity>, Error>)
    ensures
        r is Ok <==> first_repeat(profile_ids(profile.monitors@)) == profile.monitors@.len(),
        r matches Ok(keys) ==> identity_views(keys@) == profile_ids(profile.monitors@),
        r matches Err(e) ==> e@ == Failure::DuplicateProfileMonitorIdentity(
            profile_ids(profile.monitors@)[first_repeat(profile_ids(profile.monitors@))],
        ),
{
    let mut keys: Vec<MonitorIdentity> = Vec::new();
    let mut i: usize = 0;
    while i < profile.monitors.len()
        invariant
            0 <= i <= profile.monitors@.len(),
            identity_views(keys@) == profile_ids(profile.monitors@).take(i as int),
        decreases profile.monitors@.len() - i,
    {
        let ghost before = keys@;
        keys.push(profile_identity(&profile.monitors[i]));
        assert(identity_views(keys@) =~= identity_views(before).push(profile_identity_of(profile.monitors@[i as int])));
        assert(profile_ids(profile.monitors@).take(i + 1) =~= profile_ids(profile.monitors@).take(i as int).push(
            profile_identity_of(profile.monitors@[i as int]),
        ));
        i = i + 1;
    }
    assert(profile_ids(profile.monitors@).take(i as int) =~= profile_ids(profile.monitors@));
    let d = first_repeat_of(&keys);
    if d < keys.len() {
        return Err(Error::DuplicateProfileMonitorIdentity(keys[d].duplicate()));
    }
    Ok(keys)
}

/// The identities of the connected monitors, in order, refusing the first one
/// that occurs twice.
pub fn current_monitor_map(config: &DisplayConfig) -> (r: Result<Vec<MonitorIdentity>, Error>)
    ensures
        r is Ok <==> first_repeat(current_ids(config.monitors@)) == config.monitors@.len(),
        r matches Ok(keys) ==> identity_views(keys@) == current_ids(config.monitors@),
        r matches Err(e) ==> e@ == Failure::DuplicateCurrentMonitorIdentity(
            current_ids(config.monitors@)[first_repeat(current_ids(config.monitors@))],
        ),
{
    let mut keys: Vec<MonitorIdentity> = Vec::new();
    let mut i: usize = 0;
    while i < config.monitors.len()
        invariant
            0 <= i <= config.monitors@.len(),
            identity_views(keys@) == current_ids(config.monitors@).take(i as int),
        decreases config.monitors@.len() - i,
    {
        let ghost before = keys@;
        keys.push(current_identity(&config.monitors[i]));
        assert(identity_views(keys@) =~= identity_views(before).push(current_identity_of(config.monitors@[i as int])));
        assert(current_ids(config.monitors@).take(i + 1) =~= current_ids(config.monitors@).take(i as int).push(
            current_identity_of(config.monitors@[i as int]),
        ));
        i = i + 1;
    }
    assert(current_ids(config.monitors@).take(i as int) =~= current_ids(config.monitors@));
    let d = first_repeat_of(&keys);
    if d < keys.len() {
        return Err(Error::DuplicateCurrentMonitorIdentity(keys[d].duplicate()));
    }
    Ok(keys)
}

// ---------------------------------------------------------------------------
// Modes
// ---------------------------------------------------------------------------

/// The index of the profile monitor's first mode marked current.
pub open spec fn current_profile_mode(pm: ProfileMonitor) -> int {
    first_index(pm.modes@.len(), |i: int| pm.modes@[i].is_current)
}

pub fn current_profile_mode_by_identity(profile_monitor: &ProfileMonitor, identity: &MonitorIdentity) -> (r:
    Result<usize, Error>)
    ensures
        r is Ok <==> current_profile_mode(*profile_monitor) < profile_monitor.modes@.len(),
        r matches Ok(k) ==> k == current_profile_mode(*profile_monitor),
        r matches Err(e) ==> e@ == Failure::MissingCurrentMode(identity@),
{
    let ghost pred = |i: int| profile_monitor.modes@[i].is_current;
    let mut i: usize = 0;
    while i < profile_monitor.modes.len()
        invariant
            0 <= i <= profile_monitor.modes@.len(),
            pred == (|i: int| profile_monitor.modes@[i].is_current),
            forall|k: int| 0 <= k < i ==> !#[trigger] pred(k),
        decreases profile_monitor.modes@.len() - i,
    {
        if profile_monitor.modes[i].is_current {
            proof {
                lemma_first_index(profile_monitor.modes@.len(), pred, i as int);
            }
            return Ok(i);
        }
        i = i + 1;
    }
    proof {
        lemma_first_index(profile_monitor.modes@.len(), pred, i as int);
    }
    Err(Error::MissingCurrentMode(identity.duplicate()))
}

/// The candidate whose refresh-rate distance is smallest, the first of equals:
/// `Iterator::min_by` over `partial_cmp` of the distances, where an unordered
/// pair counts as equal.
pub open spec fn nearest_delta(candidates: Seq<int>, deltas: Seq<u64>) -> Option<int>
    decreases candidates.len(),
{
    if candidates.len() == 0 {
        None
    } else {
        let y = candidates.last();
        match nearest_delta(candidates.drop_last(), deltas) {
            None => Some(y),
            Some(b) => if float_order(deltas[b], deltas[y]) == Order::Greater {
                Some(y)
            } else {
                Some(b)
            },
        }
    }
}

proof fn lemma_nearest_delta_member(candidates: Seq<int>, deltas: Seq<u64>)
    ensures
        nearest_delta(candidates, deltas) matches Some(m) ==> candidates.contains(m),
    decreases candidates.len(),
{
    if candidates.len() > 0 {
        lemma_nearest_delta_member(candidates.drop_last(), deltas);
        if let Some(b) = nearest_delta(candidates.drop_last(), deltas) {
            let w = choose|w: int| 0 <= w < candidates.drop_last().len() && candidates.drop_last()[w] == b;
            assert(candidates[w] == b);
        }
        assert(candidates[candidates.len() - 1] == candidates.last());
    }
}

/// Which of the connected monitor's modes restores the profile monitor's
/// current mode: the one with the same id, else the one of the same size
/// whose refresh rate is nearest. `deltas[k][m]` is the bit pattern of the
/// distance between the refresh rates of profile mode `k` and mode `m`.
pub open spec fn match_mode_spec(cm: PhysicalMonitor, pm: ProfileMonitor, id: IdentityView, deltas: Seq<Vec<u64>>) -> Result<
    int,
    Failure,
> {
    let k = current_profile_mode(pm);
    if k == pm.modes@.len() {
        Err(Failure::MissingCurrentMode(id))
    } else {
        let wanted = pm.modes@[k];
        let e = first_index(cm.modes@.len(), |i: int| cm.modes@[i].id@ == wanted.id@);
        if e < cm.modes@.len() {
            Ok(e)
        } else {
            match nearest_delta(
                resolution_candidates(cm.modes@, wanted.width as int, wanted.height as int, cm.modes@.len() as int),
                deltas[k]@,
            ) {
                Some(m) => Ok(m),
                None => Err(Failure::ModeUnavailable(id, wanted.id@)),
            }
        }
    }
}

/// Whether `deltas` has a distance for every pair of a profile mode and a mode of the monitor.
pub open spec fn deltas_fit(deltas: Seq<Vec<u64>>, pm: ProfileMonitor, cm: PhysicalMonitor) -> bool {
    &&& deltas.len() == pm.modes@.len()
    &&& forall|k: int| 0 <= k < deltas.len() ==> (#[trigger] deltas[k])@.len() == cm.modes@.len()
}

pub fn mode_with_id(modes: &Vec<Mode>, id: &str) -> (r: usize)
    ensures
        r == first_index(modes@.len(), |i: int| modes@[i].id@ == id@),
{
    let ghost pred = |i: int| modes@[i].id@ == id@;
    let mut i: usize = 0;
    while i < modes.len()
        invariant
            0 <= i <= modes@.len(),
            pred == (|i: int| modes@[i].id@ == id@),
            forall|k: int| 0 <= k < i ==> !#[trigger] pred(k),
        decreases modes@.len() - i,
    {
        if str_eq(modes[i].id.as_str(), id) {
            proof {
                lemma_first_index(modes@.len(), pred, i as int);
            }
            return i;
        }
        i = i + 1;
    }
    proof {
        lemma_first_index(modes@.len(), pred, i as int);
    }
    i
}

fn nearest_candidate(candidates: &Vec<usize>, deltas: &Vec<u64>) -> (r: Option<usize>)
    requires
        indices_valid(candidate_view(candidates@), deltas@.len() as int),
    ensures
        match r {
            Some(i) => nearest_delta(candidate_view(candidates@), deltas@) == Some(i as int),
            None => nearest_delta(candidate_view(candidates@), deltas@) is None,
        },
{
    let mut best: Option<usize> = None;
    let mut k: usize = 0;
    while k < candidates.len()
        invariant
            0 <= k <= candidates@.len(),
            indices_valid(candidate_view(candidates@), deltas@.len() as int),
            match best {
                Some(b) => nearest_delta(candidate_view(candidates@).take(k as int), deltas@) == Some(b as int)
                    && b < deltas@.len(),
                None => nearest_delta(candidate_view(candidates@).take(k as int), deltas@) is None,
            },
        decreases candidates@.len() - k,
    {
        let y = candidates[k];
        assert(candidate_view(candidates@)[k as int] == y as int);
        assert(candidate_view(candidates@).take(k + 1).drop_last() == candidate_view(candidates@).take(k as int));
        best = match best {
            None => Some(y),
            Some(b) => match crate::float_bits::compare(deltas[b], deltas[y]) {
                FloatOrder::Greater => Some(y),
                _ => Some(b),
            },
        };
        k = k + 1;
    }
    assert(candidate_view(candidates@).take(candidates@.len() as int) == candidate_view(candidates@));
    best
}

/// The connected monitor's mode that restores the profile monitor's current mode.
pub fn match_mode(
    current_monitor: &PhysicalMonitor,
    profile_monitor: &ProfileMonitor,
    identity: &MonitorIdentity,
    deltas: &Vec<Vec<u64>>,
) -> (r: Result<usize, Error>)
    requires
        deltas_fit(deltas@, *profile_monitor, *current_monitor),
    ensures
        match match_mode_spec(*current_monitor, *profile_monitor, identity@, deltas@) {
            Ok(m) => r matches Ok(n) && n == m,
            Err(f) => r matches Err(e) && e@ == f,
        },
        r matches Ok(n) ==> n < current_monitor.modes@.len(),
{
    let k = match current_profile_mode_by_identity(profile_monitor, identity) {
        Ok(k) => k,
        Err(e) => return Err(e),
    };
    let wanted = &profile_monitor.modes[k];
    let e = mode_with_id(&current_monitor.modes, wanted.id.as_str());
    if e < current_monitor.modes.len() {
        return Ok(e);
    }
    let candidates = modes_for_resolution(current_monitor, wanted.width, wanted.height);
    proof {
        lemma_nearest_delta_member(candidate_view(candidates@), deltas@[k as int]@);
    }
    match nearest_candidate(&candidates, &deltas[k]) {
        Some(m) => Ok(m),
        None => Err(Error::ModeUnavailable { identity: identity.duplicate(), requested: wanted.id.clone() }),
    }
}

// ---------------------------------------------------------------------------
// Color modes and software color
// ---------------------------------------------------------------------------

/// The color mode to restore: the profile's, else the monitor's current one,
/// refused where the monitor lists supported color modes without it.
pub open spec fn resolve_color_mode_spec(pm: ProfileMonitor, cm: PhysicalMonitor, id: IdentityView) -> Result<
    Option<ColorMode>,
    Failure,
> {
    let requested = match pm.color_mode {
        Some(v) => match ColorMode::spec_from_name(v@) {
            Some(c) => Ok(Some(c)),
            None => Err(Failure::InvalidColorMode(v@)),
        },
        None => Ok(current_color_mode_spec(&cm)),
    };
    match requested {
        Err(f) => Err(f),
        Ok(None) => Ok(None),
        Ok(Some(r)) => {
            let supported = supported_color_modes_spec(cm.supported_color_modes@);
            if supported.len() == 0 || supported.contains(r) {
                Ok(Some(r))
            } else {
                Err(Failure::ColorModeUnavailable(id, r, supported))
            }
        },
    }
}

pub fn resolve_color_mode(profile_monitor: &ProfileMonitor, current_monitor: &PhysicalMonitor, identity: &MonitorIdentity) -> (r:
    Result<Option<ColorMode>, Error>)
    ensures
        match resolve_color_mode_spec(*profile_monitor, *current_monitor, identity@) {
            Ok(c) => r matches Ok(d) && d == c,
            Err(f) => r matches Err(e) && e@ == f,
        },
{
    let requested = match &profile_monitor.color_mode {
        Some(value) => match ColorMode::from_name(value.as_str()) {
            Some(c) => Some(c),
            None => return Err(Error::InvalidColorMode(value.clone())),
        },
        None => current_color_mode(current_monitor),
    };
    match requested {
        Some(requested) => {
            let supported = supported_color_modes(current_monitor);
            if supported.len() == 0 || contains_color_mode(&supported, requested) {
                Ok(Some(requested))
            } else {
                Err(Error::ColorModeUnavailable { identity: identity.duplicate(), requested, supported })
            }
        },
        None => Ok(None),
    }
}

/// The software color state that a profile monitor records, from its
/// brightness entry, else its gamma entry.
pub open spec fn software_state(pm: ProfileMonitor) -> Option<Seq<char>> {
    match pm.software_brightness {
        Some(b) => Some(b.state@),
        None => match pm.software_gamma {
            Some(g) => Some(g.state@),
            None => None,
        },
    }
}

pub open spec fn or_one(v: Option<u64>) -> u64 {
    match v {
        Some(x) => x,
        None => ONE_BITS,
    }
}

pub open spec fn filter_name(pm: ProfileMonitor) -> Seq<char> {
    match pm.software_brightness {
        Some(b) => match b.filter {
            Some(f) => f@,
            None => "linear"@,
        },
        None => "linear"@,
    }
}

pub open spec fn desired_brightness(pm: ProfileMonitor) -> u64 {
    match pm.software_brightness {
        Some(b) => or_one(b.brightness),
        None => ONE_BITS,
    }
}

pub open spec fn desired_gamma(pm: ProfileMonitor) -> GammaAdjustment {
    match pm.software_gamma {
        Some(g) => GammaAdjustment { red: or_one(g.red), green: or_one(g.green), blue: or_one(g.blue) },
        None => GammaAdjustment { red: ONE_BITS, green: ONE_BITS, blue: ONE_BITS },
    }
}

/// The software color to restore: for the states `managed` and `identity`
/// the recorded brightness, filter and gamma, each defaulting to no change;
/// nothing for `unknown` or where nothing is recorded.
pub open spec fn desired_spec(pm: ProfileMonitor) -> Result<Option<DesiredSoftwareColor>, Failure> {
    match software_state(pm) {
        None => Ok(None),
        Some(s) => if s == "managed"@ || s == "identity"@ {
            match BrightnessFilter::spec_from_name(filter_name(pm)) {
                Some(f) => Ok(
                    Some(
                        DesiredSoftwareColor {
                            brightness: Some(desired_brightness(pm)),
                            filter: f,
                            gamma_adjustment: Some(desired_gamma(pm)),
                        },
                    ),
                ),
                None => Err(Failure::ParseProfile("<profile>"@, "invalid brightness filter: "@ + filter_name(pm))),
            }
        } else if s == "unknown"@ {
            Ok(None)
        } else {
            Err(Failure::ParseProfile("<profile>"@, "unsupported software color state "@ + s))
        },
    }
}

fn value_or_one(v: Option<u64>) -> (r: u64)
    ensures
        r == or_one(v),
{
    match v {
        Some(x) => x,
        None => ONE_BITS,
    }
}

pub fn desired_software_color(profile_monitor: &ProfileMonitor) -> (r: Result<Option<DesiredSoftwareColor>, Error>)
    ensures
        match desired_spec(*profile_monitor) {
            Ok(d) => r matches Ok(c) && c == d,
            Err(f) => r matches Err(e) && e@ == f,
        },
{
    let state: Option<&str> = match &profile_monitor.software_brightness {
        Some(b) => Some(b.state.as_str()),
        None => match &profile_monitor.software_gamma {
            Some(g) => Some(g.state.as_str()),
            None => None,
        },
    };
    let state = match state {
        None => return Ok(None),
        Some(s) => s,
    };
    if str_eq(state, "managed") || str_eq(state, "identity") {
        let (brightness, filter_text): (u64, &str) = match &profile_monitor.software_brightness {
            Some(b) => (
                value_or_one(b.brightness),
                match &b.filter {
                    Some(f) => f.as_str(),
                    None => "linear",
                },
            ),
            None => (ONE_BITS, "linear"),
        };
        let filter = match BrightnessFilter::from_name(filter_text) {
            Some(f) => f,
            None => {
                let mut message = "invalid brightness filter: ".to_owned();
                push_str(&mut message, filter_text);
                return Err(Error::ParseProfile { path: "<profile>".to_owned(), message });
            },
        };
        let gamma = match &profile_monitor.software_gamma {
            Some(g) => GammaAdjustment {
                red: value_or_one(g.red),
                green: value_or_one(g.green),
                blue: value_or_one(g.blue),
            },
            None => GammaAdjustment { red: ONE_BITS, green: ONE_BITS, blue: ONE_BITS },
        };
        Ok(Some(DesiredSoftwareColor { brightness: Some(brightness), filter, gamma_adjustment: Some(gamma) }))
    } else if str_eq(state, "unknown") {
        Ok(None)
    } else {
        let mut message = "unsupported software color state ".to_owned();
        push_str(&mut message, state);
        Err(Error::ParseProfile { path: "<profile>".to_owned(), message })
    }
}

// ---------------------------------------------------------------------------
// Building the layout request
// ---------------------------------------------------------------------------

/// Refresh-rate distances for `build_apply_configs`: `deltas[q][p][k][m]` is
/// the bit pattern of `|refresh of mode m of connected monitor p - refresh of
/// mode k of profile monitor q|`. Whether it covers every such pair:
pub open spec fn deltas_cover(profile: Profile, config: DisplayConfig, deltas: Seq<Vec<Vec<Vec<u64>>>>) -> bool {
    &&& deltas.len() == profile.monitors@.len()
    &&& forall|q: int| 0 <= q < deltas.len() ==> (#[trigger] deltas[q])@.len() == config.monitors@.len()
    &&& forall|q: int, p: int|
        0 <= q < deltas.len() && 0 <= p < config.monitors@.len() ==> deltas_fit(
            #[trigger] deltas[q]@[p]@,
            profile.monitors@[q],
            config.monitors@[p],
        )
}

/// The monitor properties that carry a color mode.
pub open spec fn properties_for(color_mode: Option<ColorMode>) -> Seq<ApplyMonitorProperty> {
    match color_mode {
        Some(m) => seq![ApplyMonitorProperty::ColorMode(m)],
        None => Seq::empty(),
    }
}

/// One monitor of a profile logical monitor: refused where it was used
/// before, where the profile lacks it or marks it disabled, where it is not
/// connected, or where its mode, color mode or software color cannot be
/// resolved; else the monitor to request, the index of the connected monitor,
/// and the software color to restore on it.
pub open spec fn plan_associated(
    profile: Profile,
    config: DisplayConfig,
    deltas: Seq<Vec<Vec<Vec<u64>>>>,
    used: Seq<IdentityView>,
    a: ProfileAssociatedMonitor,
) -> Result<(ApplyMonitorView, int, Option<DesiredSoftwareColor>), Failure> {
    let id = associated_identity_of(a);
    let q = identity_index(profile_ids(profile.monitors@), id);
    let p = identity_index(current_ids(config.monitors@), id);
    if used.contains(id) {
        Err(Failure::DuplicateActiveMonitor(id))
    } else if q == profile.monitors@.len() {
        Err(Failure::MissingProfileMonitor(id))
    } else if !profile.monitors@[q].enabled {
        Err(Failure::ProfileMonitorDisabled(id))
    } else if p == config.monitors@.len() {
        Err(Failure::MissingCurrentMonitor(id))
    } else {
        let pm = profile.monitors@[q];
        let cm = config.monitors@[p];
        match match_mode_spec(cm, pm, id, deltas[q]@[p]@) {
            Err(f) => Err(f),
            Ok(m) => match resolve_color_mode_spec(pm, cm, id) {
                Err(f) => Err(f),
                Ok(c) => match desired_spec(pm) {
                    Err(f) => Err(f),
                    Ok(d) => Ok(
                        (
                            ApplyMonitorView {
                                connector: cm.connector@,
                                mode_id: cm.modes@[m].id@,
                                properties: properties_for(c),
                            },
                            p,
                            d,
                        ),
                    ),
                },
            },
        }
    }
}

/// The monitors of a profile logical monitor, planned in order, with the
/// identities used so far growing as they are planned.
pub open spec fn plan_associated_all(
    profile: Profile,
    config: DisplayConfig,
    deltas: Seq<Vec<Vec<Vec<u64>>>>,
    used: Seq<IdentityView>,
    monitors: Seq<ProfileAssociatedMonitor>,
) -> Result<(Seq<ApplyMonitorView>, Seq<(int, Option<DesiredSoftwareColor>)>, Seq<IdentityView>), Failure>
    decreases monitors.len(),
{
    if monitors.len() == 0 {
        Ok((Seq::empty(), Seq::empty(), used))
    } else {
        match plan_associated_all(profile, config, deltas, used, monitors.drop_last()) {
            Err(f) => Err(f),
            Ok((planned, colors, u)) => match plan_associated(profile, config, deltas, u, monitors.last()) {
                Err(f) => Err(f),
                Ok((m, p, d)) => Ok(
                    (planned.push(m), colors.push((p, d)), u.push(associated_identity_of(monitors.last()))),
                ),
            },
        }
    }
}

/// The profile's logical monitors, planned in order.
pub open spec fn plan_logical_all(
    profile: Profile,
    config: DisplayConfig,
    deltas: Seq<Vec<Vec<Vec<u64>>>>,
    logical: Seq<ProfileLogicalMonitor>,
) -> Result<(Seq<ApplyConfigView>, Seq<(int, Option<DesiredSoftwareColor>)>, Seq<IdentityView>), Failure>
    decreases logical.len(),
{
    if logical.len() == 0 {
        Ok((Seq::empty(), Seq::empty(), Seq::empty()))
    } else {
        match plan_logical_all(profile, config, deltas, logical.drop_last()) {
            Err(f) => Err(f),
            Ok((configs, colors, used)) => {
                let lm = logical.last();
                match plan_associated_all(profile, config, deltas, used, lm.monitors@) {
                    Err(f) => Err(f),
                    Ok((planned, more, u)) => match transform_from_profile_spec(lm.rotation@, lm.reflection@) {
                        Err(f) => Err(f),
                        Ok(t) => Ok(
                            (
                                configs.push(
                                    ApplyConfigView {
                                        x_pos: lm.x,
                                        y_pos: lm.y,
                                        scale: lm.scale,
                                        transform: t,
                                        primary: lm.primary,
                                        monitors: planned,
                                    },
                                ),
                                colors + more,
                                u,
                            ),
                        ),
                    },
                }
            },
        }
    }
}

/// The layout request that restores the profile, with the software color to
/// restore on each connected monitor (by index), or the first reason it cannot
/// be built: a layout mode other than the current one, an identity that occurs
/// twice in the profile or on the hardware, then the logical monitors in order.
pub open spec fn build_spec(profile: Profile, config: DisplayConfig, deltas: Seq<Vec<Vec<Vec<u64>>>>) -> Result<
    (Seq<ApplyConfigView>, Seq<(int, Option<DesiredSoftwareColor>)>),
    Failure,
> {
    let current = config.known_properties.layout_mode.spec_name();
    let pids = profile_ids(profile.monitors@);
    let cids = current_ids(config.monitors@);
    if profile.layout_mode@ != current {
        Err(Failure::UnsupportedLayoutMode(profile.layout_mode@, current))
    } else if first_repeat(pids) < pids.len() {
        Err(Failure::DuplicateProfileMonitorIdentity(pids[first_repeat(pids)]))
    } else if first_repeat(cids) < cids.len() {
        Err(Failure::DuplicateCurrentMonitorIdentity(cids[first_repeat(cids)]))
    } else {
        match plan_logical_all(profile, config, deltas, profile.logical_monitors@) {
            Err(f) => Err(f),
            Ok((configs, colors, _)) => Ok((configs, colors)),
        }
    }
}

pub open spec fn color_views(colors: Seq<(usize, Option<DesiredSoftwareColor>)>) -> Seq<
    (int, Option<DesiredSoftwareColor>),
> {
    colors.map_values(|c: (usize, Option<DesiredSoftwareColor>)| (c.0 as int, c.1))
}

proof fn lemma_associated_failure_sticks(
    profile: Profile,
    config: DisplayConfig,
    deltas: Seq<Vec<Vec<Vec<u64>>>>,
    used: Seq<IdentityView>,
    monitors: Seq<ProfileAssociatedMonitor>,
    k: int,
)
    requires
        0 <= k <= monitors.len(),
        plan_associated_all(profile, config, deltas, used, monitors.take(k)) is Err,
    ensures
        plan_associated_all(profile, config, deltas, used, monitors) == plan_associated_all(
            profile,
            config,
            deltas,
            used,
            monitors.take(k),
        ),
    decreases monitors.len() - k,
{
    if k < monitors.len() {
        assert(monitors.take(k + 1).drop_last() =~= monitors.take(k));
        lemma_associated_failure_sticks(profile, config, deltas, used, monitors, k + 1);
    } else {
        assert(monitors.take(k) =~= monitors);
    }
}

proof fn lemma_logical_failure_sticks(
    profile: Profile,
    config: DisplayConfig,
    deltas: Seq<Vec<Vec<Vec<u64>>>>,
    logical: Seq<ProfileLogicalMonitor>,
    k: int,
)
    requires
        0 <= k <= logical.len(),
        plan_logical_all(profile, config, deltas, logical.take(k)) is Err,
    ensures
        plan_logical_all(profile, config, deltas, logical) == plan_logical_all(profile, config, deltas, logical.take(k)),
    decreases logical.len() - k,
{
    if k < logical.len() {
        assert(logical.take(k + 1).drop_last() =~= logical.take(k));
        lemma_logical_failure_sticks(profile, config, deltas, logical, k + 1);
    } else {
        assert(logical.take(k) =~= logical);
    }
}

/// Plans one monitor of a profile logical monitor.
fn plan_profile_monitor(
    profile: &Profile,
    config: &DisplayConfig,
    deltas: &Vec<Vec<Vec<Vec<u64>>>>,
    profile_keys: &Vec<MonitorIdentity>,
    current_keys: &Vec<MonitorIdentity>,
    used: &Vec<MonitorIdentity>,
    associated: &ProfileAssociatedMonitor,
) -> (r: Result<(ApplyMonitor, usize, Option<DesiredSoftwareColor>), Error>)
    requires
        deltas_cover(*profile, *config, deltas@),
        identity_views(profile_keys@) == profile_ids(profile.monitors@),
        identity_views(current_keys@) == current_ids(config.monitors@),
    ensures
        match plan_associated(*profile, *config, deltas@, identity_views(used@), *associated) {
            Ok((m, p, d)) => r matches Ok((n, i, c)) && n@ == m && i == p && c == d,
            Err(f) => r matches Err(e) && e@ == f,
        },
{
    let identity = associated_identity(associated);
    if identity_used(used, &identity) {
        return Err(Error::DuplicateActiveMonitor(identity));
    }
    let q = find_identity(profile_keys, &identity);
    if q >= profile.monitors.len() {
        return Err(Error::MissingProfileMonitor(identity));
    }
    let profile_monitor = &profile.monitors[q];
    if !profile_monitor.enabled {
        return Err(Error::ProfileMonitorDisabled(identity));
    }
    let p = find_identity(current_keys, &identity);
    if p >= config.monitors.len() {
        return Err(Error::MissingCurrentMonitor(identity));
    }
    let current_monitor = &config.monitors[p];
    proof {
        crate::search::lemma_first_index_props(
            profile_ids(profile.monitors@).len(),
            |i: int| profile_ids(profile.monitors@)[i] == identity@,
        );
    }
    assert(deltas_fit(deltas@[q as int]@[p as int]@, *profile_monitor, *current_monitor));
    let mode = match match_mode(current_monitor, profile_monitor, &identity, &deltas[q][p]) {
        Ok(m) => m,
        Err(e) => return Err(e),
    };
    let color_mode = match resolve_color_mode(profile_monitor, current_monitor, &identity) {
        Ok(c) => c,
        Err(e) => return Err(e),
    };
    let desired = match desired_software_color(profile_monitor) {
        Ok(d) => d,
        Err(e) => return Err(e),
    };
    let mut properties: Vec<ApplyMonitorProperty> = Vec::new();
    if let Some(c) = color_mode {
        properties.push(ApplyMonitorProperty::ColorMode(c));
    }
    assert(properties@ == properties_for(color_mode));
    let monitor = ApplyMonitor {
        connector: current_monitor.connector.clone(),
        mode_id: current_monitor.modes[mode].id.clone(),
        properties,
    };
    Ok((monitor, p, desired))
}

/// Builds the layout request that restores the profile on the connected
/// hardware, matching monitors by vendor, product and serial, with the
/// software color to restore on each connected monitor (by index).
pub fn build_apply_configs(profile: &Profile, config: &DisplayConfig, deltas: &Vec<Vec<Vec<Vec<u64>>>>) -> (r: Result<
    (Vec<ApplyConfig>, Vec<(usize, Option<DesiredSoftwareColor>)>),
    Error,
>)
    requires
        deltas_cover(*profile, *config, deltas@),
    ensures
        match build_spec(*profile, *config, deltas@) {
            Ok((configs, colors)) => r matches Ok((c, s)) && crate::display_config::proxied_methods::config_views(c@)
                == configs && color_views(s@) == colors,
            Err(f) => r matches Err(e) && e@ == f,
        },
{
    let current_layout = config.known_properties.layout_mode.as_str();
    if !str_eq(profile.layout_mode.as_str(), current_layout) {
        return Err(
            Error::UnsupportedLayoutMode { profile: profile.layout_mode.clone(), current: current_layout.to_owned() },
        );
    }
    let profile_keys = match profile_monitor_map(profile) {
        Ok(k) => k,
        Err(e) => return Err(e),
    };
    let current_keys = match current_monitor_map(config) {
        Ok(k) => k,
        Err(e) => return Err(e),
    };
    let ghost logical = profile.logical_monitors@;
    let mut used: Vec<MonitorIdentity> = Vec::new();
    let mut configs: Vec<ApplyConfig> = Vec::new();
    let mut software_color: Vec<(usize, Option<DesiredSoftwareColor>)> = Vec::new();
    let mut i: usize = 0;
    assert(logical.take(0) =~= Seq::<ProfileLogicalMonitor>::empty());
    assert(crate::display_config::proxied_methods::config_views(configs@) =~= Seq::<ApplyConfigView>::empty());
    assert(color_views(software_color@) =~= Seq::<(int, Option<DesiredSoftwareColor>)>::empty());
    assert(identity_views(used@) =~= Seq::<IdentityView>::empty());
    while i < profile.logical_monitors.len()
        invariant
            0 <= i <= logical.len(),
            logical == profile.logical_monitors@,
            profile.layout_mode@ == config.known_properties.layout_mode.spec_name(),
            first_repeat(profile_ids(profile.monitors@)) == profile.monitors@.len(),
            first_repeat(current_ids(config.monitors@)) == config.monitors@.len(),
            deltas_cover(*profile, *config, deltas@),
            identity_views(profile_keys@) == profile_ids(profile.monitors@),
            identity_views(current_keys@) == current_ids(config.monitors@),
            plan_logical_all(*profile, *config, deltas@, logical.take(i as int)) == Ok::<
                (Seq<ApplyConfigView>, Seq<(int, Option<DesiredSoftwareColor>)>, Seq<IdentityView>),
                Failure,
            >(
                (
                    crate::display_config::proxied_methods::config_views(configs@),
                    color_views(software_color@),
                    identity_views(used@),
                ),
            ),
        decreases logical.len() - i,
    {
        let lm = &profile.logical_monitors[i];
        let ghost used0 = identity_views(used@);
        let ghost colors0 = color_views(software_color@);
        let ghost assoc = lm.monitors@;
        assert(logical.take(i + 1).drop_last() =~= logical.take(i as int));
        assert(logical.take(i + 1).last() == *lm);
        let mut monitors: Vec<ApplyMonitor> = Vec::new();
        let mut colors: Vec<(usize, Option<DesiredSoftwareColor>)> = Vec::new();
        let mut j: usize = 0;
        assert(assoc.take(0) =~= Seq::<ProfileAssociatedMonitor>::empty());
        assert(monitor_views(monitors@) =~= Seq::<ApplyMonitorView>::empty());
        assert(color_views(colors@) =~= Seq::<(int, Option<DesiredSoftwareColor>)>::empty());
        while j < lm.monitors.len()
            invariant
                0 <= j <= assoc.len(),
                profile.layout_mode@ == config.known_properties.layout_mode.spec_name(),
                first_repeat(profile_ids(profile.monitors@)) == profile.monitors@.len(),
                first_repeat(current_ids(config.monitors@)) == config.monitors@.len(),
                0 <= i < logical.len(),
                logical == profile.logical_monitors@,
                *lm == logical[i as int],
                assoc == lm.monitors@,
                deltas_cover(*profile, *config, deltas@),
                identity_views(profile_keys@) == profile_ids(profile.monitors@),
                identity_views(current_keys@) == current_ids(config.monitors@),
                plan_logical_all(*profile, *config, deltas@, logical.take(i as int)) == Ok::<
                    (Seq<ApplyConfigView>, Seq<(int, Option<DesiredSoftwareColor>)>, Seq<IdentityView>),
                    Failure,
                >((crate::display_config::proxied_methods::config_views(configs@), colors0, used0)),
                logical.take(i + 1).drop_last() == logical.take(i as int),
                logical.take(i + 1).last() == *lm,
                plan_associated_all(*profile, *config, deltas@, used0, assoc.take(j as int)) == Ok::<
                    (Seq<ApplyMonitorView>, Seq<(int, Option<DesiredSoftwareColor>)>, Seq<IdentityView>),
                    Failure,
                >((monitor_views(monitors@), color_views(colors@), identity_views(used@))),
                color_views(software_color@) == colors0,
            decreases assoc.len() - j,
        {
            assert(assoc.take(j + 1).drop_last() =~= assoc.take(j as int));
            assert(assoc.take(j + 1).last() == assoc[j as int]);
            match plan_profile_monitor(
                profile,
                config,
                deltas,
                &profile_keys,
                &current_keys,
                &used,
                &lm.monitors[j],
            ) {
                Ok((m, p, d)) => {
                    let ghost mb = monitors@;
                    let ghost cb = colors@;
                    let ghost ub = used@;
                    used.push(associated_identity(&lm.monitors[j]));
                    monitors.push(m);
                    colors.push((p, d));
                    assert(monitor_views(monitors@) =~= monitor_views(mb).push(m@));
                    assert(color_views(colors@) =~= color_views(cb).push((p as int, d)));
                    assert(identity_views(used@) =~= identity_views(ub).push(associated_identity_of(assoc[j as int])));
                },
                Err(e) => {
                    proof {
                        lemma_associated_failure_sticks(*profile, *config, deltas@, used0, assoc, j + 1);
                        lemma_logical_failure_sticks(*profile, *config, deltas@, logical, i + 1);
                    }
                    return Err(e);
                },
            }
            j = j + 1;
        }
        assert(assoc.take(j as int) =~= assoc);
        let transform = match transform_from_profile(lm.rotation.as_str(), lm.reflection.as_str()) {
            Ok(t) => t,
            Err(e) => {
                proof {
                    lemma_logical_failure_sticks(*profile, *config, deltas@, logical, i + 1);
                }
                return Err(e);
            },
        };
        let ghost cfb = configs@;
        let ghost scb = software_color@;
        let ghost planned = monitor_views(monitors@);
        let ghost more = color_views(colors@);
        configs.push(
            ApplyConfig {
                x_pos: lm.x,
                y_pos: lm.y,
                scale: lm.scale,
                transform,
                primary: lm.primary,
                monitors,
            },
        );
        software_color.append(&mut colors);
        assert(crate::display_config::proxied_methods::config_views(configs@) =~= crate::display_config::proxied_methods::config_views(cfb).push(
            ApplyConfigView { x_pos: lm.x, y_pos: lm.y, scale: lm.scale, transform, primary: lm.primary, monitors: planned },
        ));
        assert(color_views(software_color@) =~= color_views(scb) + more);
        i = i + 1;
    }
    assert(logical.take(i as int) =~= logical);
    Ok((configs, software_color))
}

} // verus!

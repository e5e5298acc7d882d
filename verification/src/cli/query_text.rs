//! The text views of `query`: the sections that describe the display, its
//! logical monitors and its monitors, the one-line summaries, and the
//! `--listmonitors` table. Numbers that are `f64` come as the text that shows
//! them, and raw properties as their keys and JSON texts.

use vstd::prelude::*;

use crate::cli::apply::{named_rotation, reflection_from_transform, reflection_name, rotation_from_transform};
use crate::cli::modify::{find_current, find_preferred, first_current, first_preferred};
use crate::display_config::proxied_methods::{color_mode_from_property, color_mode_list, color_mode_names, ColorMode};
use crate::display_config::{DisplayConfig, LogicalMonitor, Mode, Monitor, PhysicalMonitor};
use crate::text::{
    decimal_digits, join_texts, push_decimal, push_joined, push_signed_decimal, push_str, signed_decimal, str_eq,
};

verus! {

// ---------------------------------------------------------------------------
// Small values as text
// ---------------------------------------------------------------------------

pub open spec fn bool_text(b: bool) -> Seq<char> {
    if b {
        "true"@
    } else {
        "false"@
    }
}

/// An optional flag: its value, or `null`.
pub open spec fn opt_bool_text(o: Option<bool>) -> Seq<char> {
    match o {
        Some(b) => bool_text(b),
        None => "null"@,
    }
}

/// An optional number: its value, or `null`.
pub open spec fn opt_i64_text(o: Option<i64>) -> Seq<char> {
    match o {
        Some(v) => signed_decimal(v as int),
        None => "null"@,
    }
}

pub open spec fn spaces(n: nat) -> Seq<char> {
    Seq::new(n, |i: int| ' ')
}

pub fn bool_str(b: bool) -> (r: &'static str)
    ensures
        r@ == bool_text(b),
{
    if b {
        "true"
    } else {
        "false"
    }
}

pub fn opt_bool_str(o: Option<bool>) -> (r: &'static str)
    ensures
        r@ == opt_bool_text(o),
{
    match o {
        Some(b) => bool_str(b),
        None => "null",
    }
}

pub fn opt_i64_string(o: Option<i64>) -> (r: String)
    ensures
        r@ == opt_i64_text(o),
{
    match o {
        Some(v) => {
            let mut r = String::new();
            push_signed_decimal(&mut r, v);
            r
        },
        None => "null".to_owned(),
    }
}

pub fn spaces_text(n: usize) -> (r: String)
    ensures
        r@ == spaces(n as nat),
{
    let mut r = String::new();
    let mut i: usize = 0;
    while i < n
        invariant
            0 <= i <= n,
            r@ == spaces(i as nat),
        decreases n - i,
    {
        push_str(&mut r, " ");
        proof {
            reveal_strlit(" ");
            assert(spaces(i as nat) + " "@ =~= spaces((i + 1) as nat));
        }
        i = i + 1;
    }
    r
}

// ---------------------------------------------------------------------------
// Raw properties
// ---------------------------------------------------------------------------

/// A raw property: its key, and its value as JSON text.
#[derive(Debug, Clone)]
pub struct PropertyText {
    pub key: String,
    pub value: String,
}

/// The keys a section leaves out of its raw properties, because it shows
/// them as typed fields.
#[derive(Debug, Clone, Copy, PartialEq, Eq, Structural)]
pub enum TypedKeys {
    Nothing,
    Display,
    Monitor,
}

pub open spec fn typed_key(keys: TypedKeys, key: Seq<char>) -> bool {
    match keys {
        TypedKeys::Nothing => false,
        TypedKeys::Display => key == "renderer"@,
        TypedKeys::Monitor => key == "display-name"@ || key == "is-builtin"@ || key == "width-mm"@ || key
            == "height-mm"@,
    }
}

fn is_typed_key(keys: TypedKeys, key: &str) -> (r: bool)
    ensures
        r == typed_key(keys, key@),
{
    match keys {
        TypedKeys::Nothing => false,
        TypedKeys::Display => str_eq(key, "renderer"),
        TypedKeys::Monitor => str_eq(key, "display-name") || str_eq(key, "is-builtin") || str_eq(key, "width-mm")
            || str_eq(key, "height-mm"),
    }
}

/// The lines of the raw properties that a section shows, indented by `indent`.
pub open spec fn property_lines(indent: nat, props: Seq<PropertyText>, keys: TypedKeys) -> Seq<char>
    decreases props.len(),
{
    if props.len() == 0 {
        Seq::empty()
    } else {
        let p = props.last();
        property_lines(indent, props.drop_last(), keys) + if typed_key(keys, p.key@) {
            Seq::empty()
        } else {
            spaces(indent) + p.key@ + ": "@ + p.value@ + "\n"@
        }
    }
}

/// Whether a section shows any of the raw properties.
pub open spec fn shows_properties(props: Seq<PropertyText>, keys: TypedKeys) -> bool {
    exists|i: int| 0 <= i < props.len() && !typed_key(keys, (#[trigger] props[i]).key@)
}

/// The raw properties block of a section: nothing where it shows none.
pub open spec fn properties_block(indent: nat, props: Seq<PropertyText>, keys: TypedKeys) -> Seq<char> {
    if shows_properties(props, keys) {
        spaces(indent) + "properties:\n"@ + property_lines(indent + 2, props, keys)
    } else {
        Seq::empty()
    }
}

/// The lines of the raw properties that a section shows.
pub fn property_lines_text(indent: usize, props: &Vec<PropertyText>, keys: TypedKeys) -> (r: String)
    ensures
        r@ == property_lines(indent as nat, props@, keys),
{
    let mut r = String::new();
    let mut i: usize = 0;
    while i < props.len()
        invariant
            0 <= i <= props@.len(),
            r@ == property_lines(indent as nat, props@.take(i as int), keys),
        decreases props@.len() - i,
    {
        let p = &props[i];
        assert(props@.take(i + 1).drop_last() =~= props@.take(i as int));
        if !is_typed_key(keys, p.key.as_str()) {
            let mut line = spaces_text(indent);
            push_str(&mut line, p.key.as_str());
            push_str(&mut line, ": ");
            push_str(&mut line, p.value.as_str());
            push_str(&mut line, "\n");
            push_str(&mut r, line.as_str());
        } else {
            assert(r@ =~= r@ + Seq::<char>::empty());
        }
        i = i + 1;
    }
    assert(props@.take(props@.len() as int) =~= props@);
    r
}

/// Whether a section shows any of the raw properties.
pub fn has_shown_properties(props: &Vec<PropertyText>, keys: TypedKeys) -> (r: bool)
    ensures
        r == shows_properties(props@, keys),
{
    let mut k: usize = 0;
    while k < props.len()
        invariant
            0 <= k <= props@.len(),
            forall|i: int| 0 <= i < k ==> typed_key(keys, (#[trigger] props@[i]).key@),
        decreases props@.len() - k,
    {
        if !is_typed_key(keys, props[k].key.as_str()) {
            return true;
        }
        k = k + 1;
    }
    false
}

/// The raw properties block of a section.
pub fn properties_text(indent: usize, props: &Vec<PropertyText>, keys: TypedKeys) -> (r: String)
    requires
        indent + 2 <= usize::MAX,
    ensures
        r@ == properties_block(indent as nat, props@, keys),
{
    if !has_shown_properties(props, keys) {
        return String::new();
    }
    let mut r = spaces_text(indent);
    push_str(&mut r, "properties:\n");
    push_str(&mut r, property_lines_text(indent + 2, props, keys).as_str());
    r
}

// ---------------------------------------------------------------------------
// The display
// ---------------------------------------------------------------------------

/// What the display section shows beyond the configuration: the renderer and
/// the raw properties.
#[derive(Debug, Clone)]
pub struct DisplayText {
    pub renderer: Option<String>,
    pub properties: Vec<PropertyText>,
}

/// The renderer's line, where the display names one.
pub open spec fn renderer_line(d: &DisplayText) -> Seq<char> {
    match d.renderer {
        Some(r) => "  renderer: "@ + r@ + "\n"@,
        None => Seq::empty(),
    }
}

pub open spec fn display_section(config: &DisplayConfig, d: &DisplayText, show_properties: bool) -> Seq<char> {
    let k = config.known_properties;
    "display:\n"@ + "  serial: "@ + decimal_digits(config.serial as nat) + "\n"@ + "  layout_mode: "@
        + k.layout_mode.spec_name() + "\n"@ + "  supports_mirroring: "@ + bool_text(k.supports_mirroring) + "\n"@
        + "  supports_changing_layout_mode: "@ + bool_text(k.supports_changing_layout_mode) + "\n"@
        + "  global_scale_required: "@ + bool_text(k.global_scale_required) + "\n"@ + renderer_line(d)
        + (if show_properties {
        properties_block(2, d.properties@, TypedKeys::Display)
    } else {
        Seq::empty()
    })
}

pub fn display_section_text(config: &DisplayConfig, d: &DisplayText, show_properties: bool) -> (r: String)
    ensures
        r@ == display_section(config, d, show_properties),
{
    let k = config.known_properties;
    let mut r = "display:\n".to_owned();
    push_str(&mut r, "  serial: ");
    push_decimal(&mut r, config.serial as u64);
    push_str(&mut r, "\n");
    push_str(&mut r, "  layout_mode: ");
    push_str(&mut r, k.layout_mode.as_str());
    push_str(&mut r, "\n");
    push_str(&mut r, "  supports_mirroring: ");
    push_str(&mut r, bool_str(k.supports_mirroring));
    push_str(&mut r, "\n");
    push_str(&mut r, "  supports_changing_layout_mode: ");
    push_str(&mut r, bool_str(k.supports_changing_layout_mode));
    push_str(&mut r, "\n");
    push_str(&mut r, "  global_scale_required: ");
    push_str(&mut r, bool_str(k.global_scale_required));
    push_str(&mut r, "\n");
    let renderer = match &d.renderer {
        Some(name) => {
            let mut line = "  renderer: ".to_owned();
            push_str(&mut line, name.as_str());
            push_str(&mut line, "\n");
            line
        },
        None => String::new(),
    };
    push_str(&mut r, renderer.as_str());
    let properties = if show_properties {
        properties_text(2, &d.properties, TypedKeys::Display)
    } else {
        String::new()
    };
    push_str(&mut r, properties.as_str());
    r
}

// ---------------------------------------------------------------------------
// Logical monitors
// ---------------------------------------------------------------------------

/// What the text views show of a logical monitor beyond the configuration:
/// its scale as text and its raw properties.
#[derive(Debug, Clone)]
pub struct LogicalText {
    pub scale: String,
    pub properties: Vec<PropertyText>,
}

/// The connectors of the monitors of a logical monitor.
pub open spec fn connectors_of(monitors: Seq<Monitor>) -> Seq<Seq<char>> {
    monitors.map_values(|m: Monitor| m.connector@)
}

fn connector_names(monitors: &Vec<Monitor>) -> (r: Vec<String>)
    ensures
        crate::text::string_views(r@) == connectors_of(monitors@),
{
    let mut r: Vec<String> = Vec::new();
    let mut i: usize = 0;
    while i < monitors.len()
        invariant
            0 <= i <= monitors@.len(),
            crate::text::string_views(r@) =~= connectors_of(monitors@).take(i as int),
        decreases monitors@.len() - i,
    {
        let ghost before = r@;
        r.push(monitors[i].connector.clone());
        assert(crate::text::string_views(r@) =~= crate::text::string_views(before).push(monitors@[i as int].connector@));
        assert(connectors_of(monitors@).take(i + 1) =~= connectors_of(monitors@).take(i as int).push(
            monitors@[i as int].connector@,
        ));
        i = i + 1;
    }
    assert(connectors_of(monitors@).take(monitors@.len() as int) =~= connectors_of(monitors@));
    r
}

/// The one-line summary of a logical monitor.
pub open spec fn logical_summary(lm: LogicalMonitor, scale: Seq<char>) -> Seq<char> {
    "x="@ + signed_decimal(lm.x as int) + " y="@ + signed_decimal(lm.y as int) + " scale="@ + scale + " rotation="@
        + named_rotation(lm.transform) + " reflection="@ + reflection_name(lm.transform) + " primary="@ + (if lm.primary {
        "yes"@
    } else {
        "no"@
    }) + " connectors="@ + join_texts(connectors_of(lm.monitors@), ","@)
}

pub fn logical_summary_text(lm: &LogicalMonitor, scale: &str) -> (r: String)
    ensures
        r@ == logical_summary(*lm, scale@),
{
    let mut r = "x=".to_owned();
    push_signed_decimal(&mut r, lm.x as i64);
    push_str(&mut r, " y=");
    push_signed_decimal(&mut r, lm.y as i64);
    push_str(&mut r, " scale=");
    push_str(&mut r, scale);
    push_str(&mut r, " rotation=");
    push_str(&mut r, rotation_from_transform(lm.transform));
    push_str(&mut r, " reflection=");
    push_str(&mut r, reflection_from_transform(lm.transform));
    push_str(&mut r, " primary=");
    push_str(&mut r, if lm.primary { "yes" } else { "no" });
    push_str(&mut r, " connectors=");
    let mut joined = String::new();
    push_joined(&mut joined, &connector_names(&lm.monitors), ",");
    push_str(&mut r, joined.as_str());
    r
}

/// The lines of the monitors of a logical monitor, in the detailed view.
pub open spec fn associated_lines(monitors: Seq<Monitor>) -> Seq<char>
    decreases monitors.len(),
{
    if monitors.len() == 0 {
        Seq::empty()
    } else {
        let m = monitors.last();
        associated_lines(monitors.drop_last()) + ("      - connector: "@ + m.connector@ + "\n"@
            + "        vendor: "@ + m.vendor@ + "\n"@ + "        product: "@ + m.product@ + "\n"@
            + "        serial: "@ + m.serial@ + "\n"@)
    }
}

fn associated_lines_text(monitors: &Vec<Monitor>) -> (r: String)
    ensures
        r@ == associated_lines(monitors@),
{
    let mut r = String::new();
    let mut i: usize = 0;
    while i < monitors.len()
        invariant
            0 <= i <= monitors@.len(),
            r@ == associated_lines(monitors@.take(i as int)),
        decreases monitors@.len() - i,
    {
        let m = &monitors[i];
        let mut entry = "      - connector: ".to_owned();
        push_str(&mut entry, m.connector.as_str());
        push_str(&mut entry, "\n");
        push_str(&mut entry, "        vendor: ");
        push_str(&mut entry, m.vendor.as_str());
        push_str(&mut entry, "\n");
        push_str(&mut entry, "        product: ");
        push_str(&mut entry, m.product.as_str());
        push_str(&mut entry, "\n");
        push_str(&mut entry, "        serial: ");
        push_str(&mut entry, m.serial.as_str());
        push_str(&mut entry, "\n");
        push_str(&mut r, entry.as_str());
        assert(monitors@.take(i + 1).drop_last() =~= monitors@.take(i as int));
        i = i + 1;
    }
    assert(monitors@.take(monitors@.len() as int) =~= monitors@);
    r
}

/// One logical monitor in the logical monitors section, at its index.
pub open spec fn logical_entry(
    index: nat,
    lm: LogicalMonitor,
    t: LogicalText,
    verbose: bool,
    show_properties: bool,
) -> Seq<char> {
    (if verbose {
        "  "@ + decimal_digits(index) + ":\n"@ + "    x: "@ + signed_decimal(lm.x as int) + "\n"@ + "    y: "@
            + signed_decimal(lm.y as int) + "\n"@ + "    scale: "@ + t.scale@ + "\n"@ + "    rotation: "@
            + named_rotation(lm.transform) + "\n"@ + "    reflection: "@ + reflection_name(lm.transform) + "\n"@
            + "    primary: "@ + bool_text(lm.primary) + "\n"@ + "    monitors:\n"@ + associated_lines(lm.monitors@)
    } else {
        "  "@ + decimal_digits(index) + ": "@ + logical_summary(lm, t.scale@) + "\n"@
    }) + (if show_properties {
        properties_block(4, t.properties@, TypedKeys::Nothing)
    } else {
        Seq::empty()
    })
}

fn logical_entry_text(index: usize, lm: &LogicalMonitor, t: &LogicalText, verbose: bool, show_properties: bool) -> (r:
    String)
    ensures
        r@ == logical_entry(index as nat, *lm, *t, verbose, show_properties),
{
    let mut head = "  ".to_owned();
    push_decimal(&mut head, index as u64);
    if verbose {
        push_str(&mut head, ":\n");
        push_str(&mut head, "    x: ");
        push_signed_decimal(&mut head, lm.x as i64);
        push_str(&mut head, "\n");
        push_str(&mut head, "    y: ");
        push_signed_decimal(&mut head, lm.y as i64);
        push_str(&mut head, "\n");
        push_str(&mut head, "    scale: ");
        push_str(&mut head, t.scale.as_str());
        push_str(&mut head, "\n");
        push_str(&mut head, "    rotation: ");
        push_str(&mut head, rotation_from_transform(lm.transform));
        push_str(&mut head, "\n");
        push_str(&mut head, "    reflection: ");
        push_str(&mut head, reflection_from_transform(lm.transform));
        push_str(&mut head, "\n");
        push_str(&mut head, "    primary: ");
        push_str(&mut head, bool_str(lm.primary));
        push_str(&mut head, "\n");
        push_str(&mut head, "    monitors:\n");
        push_str(&mut head, associated_lines_text(&lm.monitors).as_str());
    } else {
        push_str(&mut head, ": ");
        push_str(&mut head, logical_summary_text(lm, t.scale.as_str()).as_str());
        push_str(&mut head, "\n");
    }
    let properties = if show_properties {
        properties_text(4, &t.properties, TypedKeys::Nothing)
    } else {
        String::new()
    };
    push_str(&mut head, properties.as_str());
    head
}

/// Whether `selected` indexes `n` items.
pub open spec fn indexes_within(selected: Seq<usize>, n: nat) -> bool {
    forall|k: int| 0 <= k < selected.len() ==> (#[trigger] selected[k]) < n
}

pub open spec fn logical_entries(
    config: &DisplayConfig,
    texts: Seq<LogicalText>,
    selected: Seq<usize>,
    verbose: bool,
    show_properties: bool,
) -> Seq<char>
    decreases selected.len(),
{
    if selected.len() == 0 {
        Seq::empty()
    } else {
        let i = selected.last();
        logical_entries(config, texts, selected.drop_last(), verbose, show_properties) + logical_entry(
            i as nat,
            config.logical_monitors@[i as int],
            texts[i as int],
            verbose,
            show_properties,
        )
    }
}

/// The logical monitors section: the selected logical monitors, each at its index.
pub open spec fn logical_section(
    config: &DisplayConfig,
    texts: Seq<LogicalText>,
    selected: Seq<usize>,
    verbose: bool,
    show_properties: bool,
) -> Seq<char> {
    "logical monitors:\n"@ + logical_entries(config, texts, selected, verbose, show_properties)
}

pub fn logical_section_text(
    config: &DisplayConfig,
    texts: &Vec<LogicalText>,
    selected: &Vec<usize>,
    verbose: bool,
    show_properties: bool,
) -> (r: String)
    requires
        texts@.len() == config.logical_monitors@.len(),
        indexes_within(selected@, texts@.len()),
    ensures
        r@ == logical_section(config, texts@, selected@, verbose, show_properties),
{
    let mut entries = String::new();
    let mut k: usize = 0;
    while k < selected.len()
        invariant
            0 <= k <= selected@.len(),
            texts@.len() == config.logical_monitors@.len(),
            indexes_within(selected@, texts@.len()),
            entries@ == logical_entries(config, texts@, selected@.take(k as int), verbose, show_properties),
        decreases selected@.len() - k,
    {
        let i = selected[k];
        assert(selected@[k as int] < texts@.len());
        let entry = logical_entry_text(i, &config.logical_monitors[i], &texts[i], verbose, show_properties);
        push_str(&mut entries, entry.as_str());
        assert(selected@.take(k + 1).drop_last() =~= selected@.take(k as int));
        k = k + 1;
    }
    assert(selected@.take(selected@.len() as int) =~= selected@);
    let mut r = "logical monitors:\n".to_owned();
    push_str(&mut r, entries.as_str());
    r
}

// ---------------------------------------------------------------------------
// Modes
// ---------------------------------------------------------------------------

/// What the text views show of a mode beyond the configuration: its refresh
/// rate and scales as text, and its raw properties.
#[derive(Debug, Clone)]
pub struct ModeText {
    pub refresh_rate: String,
    pub preferred_scale: String,
    pub supported_scales: Vec<String>,
    pub properties: Vec<PropertyText>,
}

pub open spec fn scales_list(t: ModeText) -> Seq<char> {
    join_texts(crate::text::string_views(t.supported_scales@), ", "@)
}

fn scales_list_text(t: &ModeText) -> (r: String)
    ensures
        r@ == scales_list(*t),
{
    let mut r = String::new();
    push_joined(&mut r, &t.supported_scales, ", ");
    r
}

/// A mode on one line, as the default view lists it.
pub open spec fn mode_line(m: Mode, t: ModeText) -> Seq<char> {
    m.id@ + " "@ + signed_decimal(m.width as int) + "x"@ + signed_decimal(m.height as int) + "@"@ + t.refresh_rate@
        + " scales=["@ + scales_list(t) + "]"@ + (if m.known_properties.is_current {
        " current"@
    } else {
        ""@
    }) + (if m.known_properties.is_preferred {
        " preferred"@
    } else {
        ""@
    })
}

pub fn mode_line_text(m: &Mode, t: &ModeText) -> (r: String)
    ensures
        r@ == mode_line(*m, *t),
{
    let mut r = m.id.clone();
    push_str(&mut r, " ");
    push_signed_decimal(&mut r, m.width as i64);
    push_str(&mut r, "x");
    push_signed_decimal(&mut r, m.height as i64);
    push_str(&mut r, "@");
    push_str(&mut r, t.refresh_rate.as_str());
    push_str(&mut r, " scales=[");
    push_str(&mut r, scales_list_text(t).as_str());
    push_str(&mut r, "]");
    push_str(&mut r, if m.known_properties.is_current { " current" } else { "" });
    push_str(&mut r, if m.known_properties.is_preferred { " preferred" } else { "" });
    r
}

/// A mode in the detailed view.
pub open spec fn verbose_mode(m: Mode, t: ModeText, show_properties: bool) -> Seq<char> {
    "      - id: "@ + m.id@ + "\n"@ + "        width: "@ + signed_decimal(m.width as int) + "\n"@ + "        height: "@
        + signed_decimal(m.height as int) + "\n"@ + "        refresh_rate: "@ + t.refresh_rate@ + "\n"@
        + "        preferred_scale: "@ + t.preferred_scale@ + "\n"@ + "        supported_scales: ["@ + scales_list(t)
        + "]\n"@ + "        is_current: "@ + bool_text(m.known_properties.is_current) + "\n"@
        + "        is_preferred: "@ + bool_text(m.known_properties.is_preferred) + "\n"@ + (if show_properties {
        properties_block(8, t.properties@, TypedKeys::Nothing)
    } else {
        Seq::empty()
    })
}

fn verbose_mode_text(m: &Mode, t: &ModeText, show_properties: bool) -> (r: String)
    ensures
        r@ == verbose_mode(*m, *t, show_properties),
{
    let mut r = "      - id: ".to_owned();
    push_str(&mut r, m.id.as_str());
    push_str(&mut r, "\n");
    push_str(&mut r, "        width: ");
    push_signed_decimal(&mut r, m.width as i64);
    push_str(&mut r, "\n");
    push_str(&mut r, "        height: ");
    push_signed_decimal(&mut r, m.height as i64);
    push_str(&mut r, "\n");
    push_str(&mut r, "        refresh_rate: ");
    push_str(&mut r, t.refresh_rate.as_str());
    push_str(&mut r, "\n");
    push_str(&mut r, "        preferred_scale: ");
    push_str(&mut r, t.preferred_scale.as_str());
    push_str(&mut r, "\n");
    push_str(&mut r, "        supported_scales: [");
    push_str(&mut r, scales_list_text(t).as_str());
    push_str(&mut r, "]\n");
    push_str(&mut r, "        is_current: ");
    push_str(&mut r, bool_str(m.known_properties.is_current));
    push_str(&mut r, "\n");
    push_str(&mut r, "        is_preferred: ");
    push_str(&mut r, bool_str(m.known_properties.is_preferred));
    push_str(&mut r, "\n");
    let properties = if show_properties {
        properties_text(8, &t.properties, TypedKeys::Nothing)
    } else {
        String::new()
    };
    push_str(&mut r, properties.as_str());
    r
}

/// One mode's entry in a mode list: detailed, on one line, or, for the raw
/// properties that follow the default list, its properties block where it has one.
#[derive(Debug, Clone, Copy, PartialEq, Eq, Structural)]
pub enum ModeListing {
    Detailed { show_properties: bool },
    Line,
    Properties,
}

pub open spec fn mode_entry(m: Mode, t: ModeText, listing: ModeListing) -> Seq<char> {
    match listing {
        ModeListing::Detailed { show_properties } => verbose_mode(m, t, show_properties),
        ModeListing::Line => "      "@ + mode_line(m, t) + "\n"@,
        ModeListing::Properties => if shows_properties(t.properties@, TypedKeys::Nothing) {
            "    mode_properties["@ + m.id@ + "]:\n"@ + properties_block(6, t.properties@, TypedKeys::Nothing)
        } else {
            Seq::empty()
        },
    }
}

fn mode_entry_text(m: &Mode, t: &ModeText, listing: ModeListing) -> (r: String)
    ensures
        r@ == mode_entry(*m, *t, listing),
{
    match listing {
        ModeListing::Detailed { show_properties } => verbose_mode_text(m, t, show_properties),
        ModeListing::Line => {
            let mut r = "      ".to_owned();
            push_str(&mut r, mode_line_text(m, t).as_str());
            push_str(&mut r, "\n");
            r
        },
        ModeListing::Properties => {
            if has_shown_properties(&t.properties, TypedKeys::Nothing) {
                let mut r = "    mode_properties[".to_owned();
                push_str(&mut r, m.id.as_str());
                push_str(&mut r, "]:\n");
                push_str(&mut r, properties_text(6, &t.properties, TypedKeys::Nothing).as_str());
                r
            } else {
                String::new()
            }
        },
    }
}

/// The entries of the modes, in order; `texts` lines up with the monitor's modes.
pub open spec fn mode_entries(modes: Seq<Mode>, texts: Seq<ModeText>, listing: ModeListing) -> Seq<char>
    decreases modes.len(),
{
    if modes.len() == 0 {
        Seq::empty()
    } else {
        mode_entries(modes.drop_last(), texts, listing) + mode_entry(modes.last(), texts[modes.len() - 1], listing)
    }
}

fn mode_entries_text(modes: &Vec<Mode>, texts: &Vec<ModeText>, listing: ModeListing) -> (r: String)
    requires
        texts@.len() == modes@.len(),
    ensures
        r@ == mode_entries(modes@, texts@, listing),
{
    let mut r = String::new();
    let mut i: usize = 0;
    while i < modes.len()
        invariant
            0 <= i <= modes@.len(),
            texts@.len() == modes@.len(),
            r@ == mode_entries(modes@.take(i as int), texts@, listing),
        decreases modes@.len() - i,
    {
        push_str(&mut r, mode_entry_text(&modes[i], &texts[i], listing).as_str());
        assert(modes@.take(i + 1).drop_last() =~= modes@.take(i as int));
        i = i + 1;
    }
    assert(modes@.take(modes@.len() as int) =~= modes@);
    r
}

/// A monitor's modes: in detail, or one per line followed, where raw
/// properties are shown, by the blocks of the modes that have them.
pub open spec fn modes_part(modes: Seq<Mode>, texts: Seq<ModeText>, verbose: bool, show_properties: bool) -> Seq<
    char,
> {
    if verbose {
        "    modes:\n"@ + mode_entries(modes, texts, ModeListing::Detailed { show_properties })
    } else {
        "    modes:\n"@ + mode_entries(modes, texts, ModeListing::Line) + (if show_properties {
            mode_entries(modes, texts, ModeListing::Properties)
        } else {
            Seq::empty()
        })
    }
}

fn modes_part_text(modes: &Vec<Mode>, texts: &Vec<ModeText>, verbose: bool, show_properties: bool) -> (r: String)
    requires
        texts@.len() == modes@.len(),
    ensures
        r@ == modes_part(modes@, texts@, verbose, show_properties),
{
    let mut r = "    modes:\n".to_owned();
    if verbose {
        push_str(&mut r, mode_entries_text(modes, texts, ModeListing::Detailed { show_properties }).as_str());
    } else {
        push_str(&mut r, mode_entries_text(modes, texts, ModeListing::Line).as_str());
        let blocks = if show_properties {
            mode_entries_text(modes, texts, ModeListing::Properties)
        } else {
            String::new()
        };
        push_str(&mut r, blocks.as_str());
    }
    r
}

// ---------------------------------------------------------------------------
// Monitors
// ---------------------------------------------------------------------------

/// What the text views show of a monitor beyond the configuration: the typed
/// properties that Mutter reports, the software color as text, its modes'
/// texts (in the order of its modes) and its raw properties.
#[derive(Debug, Clone)]
pub struct MonitorText {
    pub display_name: Option<String>,
    pub is_builtin: Option<bool>,
    pub width_mm: Option<i64>,
    pub height_mm: Option<i64>,
    pub is_underscanning: Option<bool>,
    pub software_brightness: String,
    pub software_gamma: String,
    pub modes: Vec<ModeText>,
    pub properties: Vec<PropertyText>,
}

/// The monitor's color mode as `query` reads it: a raw value that is no
/// known mode, or does not fit in 32 bits, is none.
pub open spec fn query_color_mode(pm: PhysicalMonitor) -> Option<ColorMode> {
    match pm.color_mode {
        Some(v) => ColorMode::spec_from_raw(v as int),
        None => None,
    }
}

/// The supported color modes as `query` reads them: the raw values that are
/// known modes, in order.
pub open spec fn query_color_modes(raw: Seq<u64>) -> Seq<ColorMode>
    decreases raw.len(),
{
    if raw.len() == 0 {
        Seq::empty()
    } else {
        let rest = query_color_modes(raw.drop_last());
        match ColorMode::spec_from_raw(raw.last() as int) {
            Some(m) => rest.push(m),
            None => rest,
        }
    }
}

fn query_color_modes_of(raw: &Vec<u64>) -> (r: Vec<ColorMode>)
    ensures
        r@ == query_color_modes(raw@),
{
    let mut r: Vec<ColorMode> = Vec::new();
    let mut i: usize = 0;
    while i < raw.len()
        invariant
            0 <= i <= raw@.len(),
            r@ == query_color_modes(raw@.take(i as int)),
        decreases raw@.len() - i,
    {
        assert(raw@.take(i + 1).drop_last() =~= raw@.take(i as int));
        if let Some(m) = color_mode_from_property(raw[i]) {
            r.push(m);
        }
        i = i + 1;
    }
    assert(raw@.take(raw@.len() as int) =~= raw@);
    r
}

pub open spec fn color_mode_text(o: Option<ColorMode>) -> Seq<char> {
    match o {
        Some(m) => m.spec_name(),
        None => "null"@,
    }
}

/// The supported color modes, in brackets.
pub open spec fn color_modes_text(raw: Seq<u64>) -> Seq<char> {
    "["@ + join_texts(color_mode_names(query_color_modes(raw)), ", "@) + "]"@
}

fn color_mode_string(o: Option<ColorMode>) -> (r: &'static str)
    ensures
        r@ == color_mode_text(o),
{
    match o {
        Some(m) => m.as_str(),
        None => "null",
    }
}

fn color_modes_string(raw: &Vec<u64>) -> (r: String)
    ensures
        r@ == color_modes_text(raw@),
{
    let mut r = "[".to_owned();
    push_str(&mut r, color_mode_list(&query_color_modes_of(raw)).as_str());
    push_str(&mut r, "]");
    r
}

/// The line naming the mode at `i`, where there is one.
pub open spec fn mode_id_line(label: Seq<char>, modes: Seq<Mode>, i: int) -> Seq<char> {
    if 0 <= i < modes.len() {
        label + modes[i].id@ + "\n"@
    } else {
        Seq::empty()
    }
}

fn mode_id_line_text(label: &str, modes: &Vec<Mode>, i: usize) -> (r: String)
    ensures
        r@ == mode_id_line(label@, modes@, i as int),
{
    if i < modes.len() {
        let mut r = label.to_owned();
        push_str(&mut r, modes[i].id.as_str());
        push_str(&mut r, "\n");
        r
    } else {
        String::new()
    }
}

pub open spec fn display_name_line(t: MonitorText) -> Seq<char> {
    match t.display_name {
        Some(n) => "    display_name: "@ + n@ + "\n"@,
        None => Seq::empty(),
    }
}

/// The fields of a monitor's entry, before its modes.
pub open spec fn monitor_fields(config: &DisplayConfig, pm: PhysicalMonitor, t: MonitorText) -> Seq<char> {
    let c = pm.connector@;
    "  "@ + c + ":\n"@ + "    connector: "@ + c + "\n"@ + "    enabled: "@ + bool_text(config.is_enabled(c)) + "\n"@
        + "    vendor: "@ + pm.vendor@ + "\n"@ + "    product: "@ + pm.product@ + "\n"@ + "    serial: "@
        + pm.serial@ + "\n"@ + display_name_line(t) + "    is_builtin: "@ + opt_bool_text(t.is_builtin) + "\n"@
        + "    width_mm: "@ + opt_i64_text(t.width_mm) + "\n"@ + "    height_mm: "@ + opt_i64_text(t.height_mm)
        + "\n"@ + "    color_mode: "@ + color_mode_text(query_color_mode(pm)) + "\n"@
        + "    supported_color_modes: "@ + color_modes_text(pm.supported_color_modes@) + "\n"@
        + "    is_underscanning: "@ + opt_bool_text(t.is_underscanning) + "\n"@ + mode_id_line(
        "    current_mode: "@,
        pm.modes@,
        first_current(pm.modes@),
    ) + mode_id_line("    preferred_mode: "@, pm.modes@, first_preferred(pm.modes@)) + "    software_brightness: "@
        + t.software_brightness@ + "\n"@ + "    software_gamma: "@ + t.software_gamma@ + "\n"@
}

fn monitor_fields_text(config: &DisplayConfig, pm: &PhysicalMonitor, t: &MonitorText) -> (r: String)
    ensures
        r@ == monitor_fields(config, *pm, *t),
{
    let c = pm.connector.as_str();
    let mut r = "  ".to_owned();
    push_str(&mut r, c);
    push_str(&mut r, ":\n");
    push_str(&mut r, "    connector: ");
    push_str(&mut r, c);
    push_str(&mut r, "\n");
    push_str(&mut r, "    enabled: ");
    push_str(&mut r, bool_str(crate::cli::query::monitor_enabled(config, c)));
    push_str(&mut r, "\n");
    push_str(&mut r, "    vendor: ");
    push_str(&mut r, pm.vendor.as_str());
    push_str(&mut r, "\n");
    push_str(&mut r, "    product: ");
    push_str(&mut r, pm.product.as_str());
    push_str(&mut r, "\n");
    push_str(&mut r, "    serial: ");
    push_str(&mut r, pm.serial.as_str());
    push_str(&mut r, "\n");
    let display_name = match &t.display_name {
        Some(n) => {
            let mut line = "    display_name: ".to_owned();
            push_str(&mut line, n.as_str());
            push_str(&mut line, "\n");
            line
        },
        None => String::new(),
    };
    push_str(&mut r, display_name.as_str());
    push_str(&mut r, "    is_builtin: ");
    push_str(&mut r, opt_bool_str(t.is_builtin));
    push_str(&mut r, "\n");
    push_str(&mut r, "    width_mm: ");
    push_str(&mut r, opt_i64_string(t.width_mm).as_str());
    push_str(&mut r, "\n");
    push_str(&mut r, "    height_mm: ");
    push_str(&mut r, opt_i64_string(t.height_mm).as_str());
    push_str(&mut r, "\n");
    push_str(&mut r, "    color_mode: ");
    let color_mode = match pm.color_mode {
        Some(v) => color_mode_from_property(v),
        None => None,
    };
    push_str(&mut r, color_mode_string(color_mode));
    push_str(&mut r, "\n");
    push_str(&mut r, "    supported_color_modes: ");
    push_str(&mut r, color_modes_string(&pm.supported_color_modes).as_str());
    push_str(&mut r, "\n");
    push_str(&mut r, "    is_underscanning: ");
    push_str(&mut r, opt_bool_str(t.is_underscanning));
    push_str(&mut r, "\n");
    push_str(&mut r, mode_id_line_text("    current_mode: ", &pm.modes, find_current(&pm.modes)).as_str());
    push_str(&mut r, mode_id_line_text("    preferred_mode: ", &pm.modes, find_preferred(&pm.modes)).as_str());
    push_str(&mut r, "    software_brightness: ");
    push_str(&mut r, t.software_brightness.as_str());
    push_str(&mut r, "\n");
    push_str(&mut r, "    software_gamma: ");
    push_str(&mut r, t.software_gamma.as_str());
    push_str(&mut r, "\n");
    r
}

/// A monitor's entry in the monitors section.
pub open spec fn monitor_entry(
    config: &DisplayConfig,
    pm: PhysicalMonitor,
    t: MonitorText,
    verbose: bool,
    show_properties: bool,
) -> Seq<char> {
    monitor_fields(config, pm, t) + modes_part(pm.modes@, t.modes@, verbose, show_properties) + (if show_properties {
        properties_block(4, t.properties@, TypedKeys::Monitor)
    } else {
        Seq::empty()
    })
}

fn monitor_entry_text(config: &DisplayConfig, pm: &PhysicalMonitor, t: &MonitorText, verbose: bool, show_properties: bool) -> (r:
    String)
    requires
        t.modes@.len() == pm.modes@.len(),
    ensures
        r@ == monitor_entry(config, *pm, *t, verbose, show_properties),
{
    let mut r = monitor_fields_text(config, pm, t);
    push_str(&mut r, modes_part_text(&pm.modes, &t.modes, verbose, show_properties).as_str());
    let properties = if show_properties {
        properties_text(4, &t.properties, TypedKeys::Monitor)
    } else {
        String::new()
    };
    push_str(&mut r, properties.as_str());
    r
}

/// Whether the texts line up with the selected monitors and their modes.
pub open spec fn monitor_texts_fit(config: &DisplayConfig, selected: Seq<usize>, texts: Seq<MonitorText>) -> bool {
    &&& texts.len() == selected.len()
    &&& indexes_within(selected, config.monitors@.len())
    &&& forall|k: int|
        0 <= k < selected.len() ==> (#[trigger] texts[k]).modes@.len() == config.monitors@[selected[k] as int].modes@.len()
}

pub open spec fn monitor_entries(
    config: &DisplayConfig,
    selected: Seq<usize>,
    texts: Seq<MonitorText>,
    verbose: bool,
    show_properties: bool,
) -> Seq<char>
    decreases selected.len(),
{
    if selected.len() == 0 {
        Seq::empty()
    } else {
        let k = selected.len() - 1;
        monitor_entries(config, selected.drop_last(), texts, verbose, show_properties) + monitor_entry(
            config,
            config.monitors@[selected[k] as int],
            texts[k],
            verbose,
            show_properties,
        )
    }
}

/// The monitors section: the selected monitors; `texts[k]` goes with the `k`-th of them.
pub open spec fn monitors_section(
    config: &DisplayConfig,
    selected: Seq<usize>,
    texts: Seq<MonitorText>,
    verbose: bool,
    show_properties: bool,
) -> Seq<char> {
    "monitors:\n"@ + monitor_entries(config, selected, texts, verbose, show_properties)
}

pub fn monitors_section_text(
    config: &DisplayConfig,
    selected: &Vec<usize>,
    texts: &Vec<MonitorText>,
    verbose: bool,
    show_properties: bool,
) -> (r: String)
    requires
        monitor_texts_fit(config, selected@, texts@),
    ensures
        r@ == monitors_section(config, selected@, texts@, verbose, show_properties),
{
    let mut entries = String::new();
    let mut k: usize = 0;
    while k < selected.len()
        invariant
            0 <= k <= selected@.len(),
            monitor_texts_fit(config, selected@, texts@),
            entries@ == monitor_entries(config, selected@.take(k as int), texts@, verbose, show_properties),
        decreases selected@.len() - k,
    {
        let i = selected[k];
        assert(selected@[k as int] < config.monitors@.len());
        assert(texts@[k as int].modes@.len() == config.monitors@[i as int].modes@.len());
        let entry = monitor_entry_text(config, &config.monitors[i], &texts[k], verbose, show_properties);
        push_str(&mut entries, entry.as_str());
        assert(selected@.take(k + 1).drop_last() =~= selected@.take(k as int));
        k = k + 1;
    }
    assert(selected@.take(selected@.len() as int) =~= selected@);
    let mut r = "monitors:\n".to_owned();
    push_str(&mut r, entries.as_str());
    r
}

// ---------------------------------------------------------------------------
// The views
// ---------------------------------------------------------------------------

/// The sectioned view: the display section where no connector was given or
/// in detail, the logical monitors section where no connector was given, the
/// connector drives a logical monitor, or in detail, and the monitors section.
pub open spec fn structured_text(
    config: &DisplayConfig,
    connector_given: bool,
    display: &DisplayText,
    logical_texts: Seq<LogicalText>,
    selected_logical: Seq<usize>,
    selected_physical: Seq<usize>,
    monitor_texts: Seq<MonitorText>,
    verbose: bool,
    show_properties: bool,
) -> Seq<char> {
    (if !connector_given || verbose {
        display_section(config, display, show_properties) + "\n"@
    } else {
        Seq::empty()
    }) + (if !connector_given || selected_logical.len() > 0 || verbose {
        logical_section(config, logical_texts, selected_logical, verbose, show_properties) + "\n"@
    } else {
        Seq::empty()
    }) + monitors_section(config, selected_physical, monitor_texts, verbose, show_properties)
}

pub fn structured_text_of(
    config: &DisplayConfig,
    connector_given: bool,
    display: &DisplayText,
    logical_texts: &Vec<LogicalText>,
    selected_logical: &Vec<usize>,
    selected_physical: &Vec<usize>,
    monitor_texts: &Vec<MonitorText>,
    verbose: bool,
    show_properties: bool,
) -> (r: String)
    requires
        logical_texts@.len() == config.logical_monitors@.len(),
        indexes_within(selected_logical@, logical_texts@.len()),
        monitor_texts_fit(config, selected_physical@, monitor_texts@),
    ensures
        r@ == structured_text(
            config,
            connector_given,
            display,
            logical_texts@,
            selected_logical@,
            selected_physical@,
            monitor_texts@,
            verbose,
            show_properties,
        ),
{
    let mut r = if !connector_given || verbose {
        let mut section = display_section_text(config, display, show_properties);
        push_str(&mut section, "\n");
        section
    } else {
        String::new()
    };
    let logical = if !connector_given || selected_logical.len() > 0 || verbose {
        let mut section = logical_section_text(config, logical_texts, selected_logical, verbose, show_properties);
        push_str(&mut section, "\n");
        section
    } else {
        String::new()
    };
    push_str(&mut r, logical.as_str());
    push_str(&mut r, monitors_section_text(config, selected_physical, monitor_texts, verbose, show_properties).as_str());
    r
}

/// A monitor's one-line summary.
pub open spec fn monitor_summary(config: &DisplayConfig, pm: PhysicalMonitor, t: MonitorText) -> Seq<char> {
    "enabled="@ + bool_text(config.is_enabled(pm.connector@)) + ", color_mode="@ + color_mode_text(
        query_color_mode(pm),
    ) + ", supported_color_modes="@ + color_modes_text(pm.supported_color_modes@) + ", is_underscanning="@
        + opt_bool_text(t.is_underscanning) + ", software brightness="@ + t.software_brightness@
        + ", software gamma="@ + t.software_gamma@
}

fn monitor_summary_text(config: &DisplayConfig, pm: &PhysicalMonitor, t: &MonitorText) -> (r: String)
    ensures
        r@ == monitor_summary(config, *pm, *t),
{
    let mut r = "enabled=".to_owned();
    push_str(&mut r, bool_str(crate::cli::query::monitor_enabled(config, pm.connector.as_str())));
    push_str(&mut r, ", color_mode=");
    let color_mode = match pm.color_mode {
        Some(v) => color_mode_from_property(v),
        None => None,
    };
    push_str(&mut r, color_mode_string(color_mode));
    push_str(&mut r, ", supported_color_modes=");
    push_str(&mut r, color_modes_string(&pm.supported_color_modes).as_str());
    push_str(&mut r, ", is_underscanning=");
    push_str(&mut r, opt_bool_str(t.is_underscanning));
    push_str(&mut r, ", software brightness=");
    push_str(&mut r, t.software_brightness.as_str());
    push_str(&mut r, ", software gamma=");
    push_str(&mut r, t.software_gamma.as_str());
    r
}

pub open spec fn summary_logical_lines(config: &DisplayConfig, texts: Seq<LogicalText>, selected: Seq<usize>) -> Seq<
    char,
>
    decreases selected.len(),
{
    if selected.len() == 0 {
        Seq::empty()
    } else {
        let i = selected.last() as int;
        summary_logical_lines(config, texts, selected.drop_last()) + logical_summary(
            config.logical_monitors@[i],
            texts[i].scale@,
        ) + "\n"@
    }
}

/// A monitor's summary: under its connector's name where one was asked for,
/// else on a tab-indented line of the outputs list.
pub open spec fn summary_monitor_entry(
    config: &DisplayConfig,
    pm: PhysicalMonitor,
    t: MonitorText,
    connector_given: bool,
) -> Seq<char> {
    if connector_given {
        "connector: "@ + pm.connector@ + "\n"@ + monitor_summary(config, pm, t) + "\n"@
    } else {
        "\t"@ + pm.connector@ + ": "@ + monitor_summary(config, pm, t) + "\n"@
    }
}

pub open spec fn summary_monitor_lines(
    config: &DisplayConfig,
    selected: Seq<usize>,
    texts: Seq<MonitorText>,
    connector_given: bool,
) -> Seq<char>
    decreases selected.len(),
{
    if selected.len() == 0 {
        Seq::empty()
    } else {
        let k = selected.len() - 1;
        summary_monitor_lines(config, selected.drop_last(), texts, connector_given) + summary_monitor_entry(
            config,
            config.monitors@[selected[k] as int],
            texts[k],
            connector_given,
        )
    }
}

/// The summary view: a line per selected logical monitor, then the selected
/// monitors' summaries, after an `outputs:` heading where no connector was given.
pub open spec fn summary_text(
    config: &DisplayConfig,
    connector_given: bool,
    logical_texts: Seq<LogicalText>,
    selected_logical: Seq<usize>,
    selected_physical: Seq<usize>,
    monitor_texts: Seq<MonitorText>,
) -> Seq<char> {
    summary_logical_lines(config, logical_texts, selected_logical) + (if connector_given {
        Seq::empty()
    } else {
        "outputs:\n"@
    }) + summary_monitor_lines(config, selected_physical, monitor_texts, connector_given)
}

pub fn summary_text_of(
    config: &DisplayConfig,
    connector_given: bool,
    logical_texts: &Vec<LogicalText>,
    selected_logical: &Vec<usize>,
    selected_physical: &Vec<usize>,
    monitor_texts: &Vec<MonitorText>,
) -> (r: String)
    requires
        logical_texts@.len() == config.logical_monitors@.len(),
        indexes_within(selected_logical@, logical_texts@.len()),
        monitor_texts_fit(config, selected_physical@, monitor_texts@),
    ensures
        r@ == summary_text(
            config,
            connector_given,
            logical_texts@,
            selected_logical@,
            selected_physical@,
            monitor_texts@,
        ),
{
    let mut r = String::new();
    let mut k: usize = 0;
    while k < selected_logical.len()
        invariant
            0 <= k <= selected_logical@.len(),
            logical_texts@.len() == config.logical_monitors@.len(),
            indexes_within(selected_logical@, logical_texts@.len()),
            r@ == summary_logical_lines(config, logical_texts@, selected_logical@.take(k as int)),
        decreases selected_logical@.len() - k,
    {
        let i = selected_logical[k];
        assert(selected_logical@[k as int] < logical_texts@.len());
        let mut line = logical_summary_text(&config.logical_monitors[i], logical_texts[i].scale.as_str());
        push_str(&mut line, "\n");
        push_str(&mut r, line.as_str());
        assert(selected_logical@.take(k + 1).drop_last() =~= selected_logical@.take(k as int));
        k = k + 1;
    }
    assert(selected_logical@.take(selected_logical@.len() as int) =~= selected_logical@);
    let heading = if connector_given {
        String::new()
    } else {
        "outputs:\n".to_owned()
    };
    push_str(&mut r, heading.as_str());
    let mut monitors = String::new();
    let mut j: usize = 0;
    while j < selected_physical.len()
        invariant
            0 <= j <= selected_physical@.len(),
            monitor_texts_fit(config, selected_physical@, monitor_texts@),
            monitors@ == summary_monitor_lines(config, selected_physical@.take(j as int), monitor_texts@, connector_given),
        decreases selected_physical@.len() - j,
    {
        let i = selected_physical[j];
        assert(selected_physical@[j as int] < config.monitors@.len());
        let pm = &config.monitors[i];
        let summary = monitor_summary_text(config, pm, &monitor_texts[j]);
        let entry = if connector_given {
            let mut e = "connector: ".to_owned();
            push_str(&mut e, pm.connector.as_str());
            push_str(&mut e, "\n");
            push_str(&mut e, summary.as_str());
            push_str(&mut e, "\n");
            e
        } else {
            let mut e = "\t".to_owned();
            push_str(&mut e, pm.connector.as_str());
            push_str(&mut e, ": ");
            push_str(&mut e, summary.as_str());
            push_str(&mut e, "\n");
            e
        };
        push_str(&mut monitors, entry.as_str());
        assert(selected_physical@.take(j + 1).drop_last() =~= selected_physical@.take(j as int));
        j = j + 1;
    }
    assert(selected_physical@.take(selected_physical@.len() as int) =~= selected_physical@);
    push_str(&mut r, monitors.as_str());
    r
}

/// A logical monitor's size in the layout and its physical size in
/// millimetres, as the monitor list shows them.
#[derive(Debug, Clone, Copy, PartialEq, Eq, Structural)]
pub struct Geometry {
    pub width: i32,
    pub height: i32,
    pub width_mm: i64,
    pub height_mm: i64,
}

/// A logical monitor's line in the monitor list, at its index.
pub open spec fn list_line(index: nat, lm: LogicalMonitor, g: Geometry) -> Seq<char> {
    let names = connectors_of(lm.monitors@);
    " "@ + decimal_digits(index) + ": +"@ + (if lm.primary {
        "*"@
    } else {
        ""@
    }) + join_texts(names, "+"@) + " "@ + signed_decimal(g.width as int) + "/"@ + signed_decimal(g.width_mm as int)
        + "x"@ + signed_decimal(g.height as int) + "/"@ + signed_decimal(g.height_mm as int) + "+"@ + signed_decimal(
        lm.x as int,
    ) + "+"@ + signed_decimal(lm.y as int) + "  "@ + join_texts(names, " "@) + "\n"@
}

/// A logical monitor's line in the monitor list starts with its index and
/// ends with its geometry and position: a field that reads back as its width,
/// `/`, the width in millimetres in decimal, `x`, a field that reads back as its height,
/// `/`, the height in millimetres in decimal, `+`, a field that reads back as its x
/// coordinate, `+`, a field that reads back as its y coordinate, then its
/// connectors.
pub proof fn lemma_list_line_fields(index: nat, lm: LogicalMonitor, g: Geometry)
    ensures
        exists|head: Seq<char>, ws: Seq<char>, wms: Seq<char>, hs: Seq<char>, hms: Seq<char>, xs: Seq<char>, ys: Seq<char>|
            {
                &&& list_line(index, lm, g) == head + " "@ + ws + "/"@ + wms + "x"@ + hs + "/"@ + hms + "+"@ + xs
                    + "+"@ + ys + "  "@ + join_texts(connectors_of(lm.monitors@), " "@) + "\n"@
                &&& crate::text::parse_i32_spec(ws) == Some(g.width as int)
                &&& wms == signed_decimal(g.width_mm as int)
                &&& crate::text::parse_i32_spec(hs) == Some(g.height as int)
                &&& hms == signed_decimal(g.height_mm as int)
                &&& crate::text::parse_i32_spec(xs) == Some(lm.x as int)
                &&& crate::text::parse_i32_spec(ys) == Some(lm.y as int)
                &&& head.take(decimal_digits(index).len() + 4int) == " "@ + decimal_digits(index) + ": +"@
            },
{
    let names = connectors_of(lm.monitors@);
    let start = " "@ + decimal_digits(index) + ": +"@;
    let head = start + (if lm.primary {
        "*"@
    } else {
        ""@
    }) + join_texts(names, "+"@);
    let ws = signed_decimal(g.width as int);
    let wms = signed_decimal(g.width_mm as int);
    let hs = signed_decimal(g.height as int);
    let hms = signed_decimal(g.height_mm as int);
    let xs = signed_decimal(lm.x as int);
    let ys = signed_decimal(lm.y as int);
    crate::text::lemma_signed_decimal_parses(g.width as int);
    crate::text::lemma_signed_decimal_parses(g.height as int);
    crate::text::lemma_signed_decimal_parses(lm.x as int);
    crate::text::lemma_signed_decimal_parses(lm.y as int);
    assert(list_line(index, lm, g) =~= head + " "@ + ws + "/"@ + wms + "x"@ + hs + "/"@ + hms + "+"@ + xs + "+"@ + ys
        + "  "@ + join_texts(names, " "@) + "\n"@);
    reveal_strlit(" ");
    reveal_strlit(": +");
    assert(start.len() == decimal_digits(index).len() + 4);
    assert(head.take(decimal_digits(index).len() + 4int) =~= start);
}

fn list_line_text(index: usize, lm: &LogicalMonitor, g: Geometry) -> (r: String)
    ensures
        r@ == list_line(index as nat, *lm, g),
{
    let names = connector_names(&lm.monitors);
    let mut r = " ".to_owned();
    push_decimal(&mut r, index as u64);
    push_str(&mut r, ": +");
    push_str(&mut r, if lm.primary { "*" } else { "" });
    let mut plus = String::new();
    push_joined(&mut plus, &names, "+");
    push_str(&mut r, plus.as_str());
    push_str(&mut r, " ");
    push_signed_decimal(&mut r, g.width as i64);
    push_str(&mut r, "/");
    push_signed_decimal(&mut r, g.width_mm);
    push_str(&mut r, "x");
    push_signed_decimal(&mut r, g.height as i64);
    push_str(&mut r, "/");
    push_signed_decimal(&mut r, g.height_mm);
    push_str(&mut r, "+");
    push_signed_decimal(&mut r, lm.x as i64);
    push_str(&mut r, "+");
    push_signed_decimal(&mut r, lm.y as i64);
    push_str(&mut r, "  ");
    let mut spaced = String::new();
    push_joined(&mut spaced, &names, " ");
    push_str(&mut r, spaced.as_str());
    push_str(&mut r, "\n");
    r
}

pub open spec fn list_lines(config: &DisplayConfig, selected: Seq<usize>, geometry: Seq<Geometry>) -> Seq<char>
    decreases selected.len(),
{
    if selected.len() == 0 {
        Seq::empty()
    } else {
        let k = selected.len() - 1;
        list_lines(config, selected.drop_last(), geometry) + list_line(
            selected[k] as nat,
            config.logical_monitors@[selected[k] as int],
            geometry[k],
        )
    }
}

/// The `--listmonitors` view: the number of selected logical monitors, then
/// a line for each; `geometry[k]` goes with the `k`-th of them.
pub open spec fn list_text(config: &DisplayConfig, selected: Seq<usize>, geometry: Seq<Geometry>) -> Seq<char> {
    "Monitors: "@ + decimal_digits(selected.len()) + "\n"@ + list_lines(config, selected, geometry)
}

pub fn list_text_of(config: &DisplayConfig, selected: &Vec<usize>, geometry: &Vec<Geometry>) -> (r: String)
    requires
        indexes_within(selected@, config.logical_monitors@.len()),
        geometry@.len() == selected@.len(),
    ensures
        r@ == list_text(config, selected@, geometry@),
{
    let mut lines = String::new();
    let mut k: usize = 0;
    while k < selected.len()
        invariant
            0 <= k <= selected@.len(),
            indexes_within(selected@, config.logical_monitors@.len()),
            geometry@.len() == selected@.len(),
            lines@ == list_lines(config, selected@.take(k as int), geometry@),
        decreases selected@.len() - k,
    {
        let i = selected[k];
        assert(selected@[k as int] < config.logical_monitors@.len());
        push_str(&mut lines, list_line_text(i, &config.logical_monitors[i], geometry[k]).as_str());
        assert(selected@.take(k + 1).drop_last() =~= selected@.take(k as int));
        k = k + 1;
    }
    assert(selected@.take(selected@.len() as int) =~= selected@);
    let mut r = "Monitors: ".to_owned();
    push_decimal(&mut r, selected.len() as u64);
    push_str(&mut r, "\n");
    push_str(&mut r, lines.as_str());
    r
}

} // verus!

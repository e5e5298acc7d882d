//! Writing a planned layout as Mutter's `monitors.xml`, so that it persists.

use vstd::prelude::*;

use crate::cli::apply::{mode_with_id, rotation_bits_name, rotation_name};
use crate::display_config::proxied_methods::{config_views, ApplyConfig, ApplyMonitorProperty, ApplyMonitorView, ApplyConfigView};
use crate::display_config::{DisplayConfig, LayoutMode, Mode, PhysicalMonitor};
use crate::search::{first_index, lemma_first_index};
use crate::text::{chars_of, push_char, push_signed_decimal, push_str, signed_decimal, str_eq};

verus! {

/// Why `monitors.xml` cannot be written.
#[derive(Debug)]
pub enum Error {
    MissingConfigHome,
    InvalidPath(String),
    MissingPhysicalMonitor { connector: String },
    MissingMode { connector: String, mode_id: String },
    Io { path: String, message: String },
}

impl Error {
    /// What the error says to the user.
    pub open spec fn message_text(&self) -> Seq<char> {
        match self {
            Error::MissingConfigHome => "fatal: unable to determine a configuration directory for monitors.xml. Set XDG_CONFIG_HOME or HOME."@,
            Error::InvalidPath(path) => "fatal: monitors.xml path "@ + path@ + " does not have a parent directory."@,
            Error::MissingPhysicalMonitor { connector } => "fatal: monitors.xml writer could not find physical monitor "@
                + connector@ + " in the current config."@,
            Error::MissingMode { connector, mode_id } => "fatal: monitors.xml writer could not find mode "@ + mode_id@
                + " for "@ + connector@ + "."@,
            Error::Io { path, message } => "fatal: failed to write monitors.xml at "@ + path@ + ": "@ + message@,
        }
    }

    pub fn message(&self) -> (r: String)
        ensures
            r@ == self.message_text(),
    {
        match self {
            Error::MissingConfigHome => "fatal: unable to determine a configuration directory for monitors.xml. Set XDG_CONFIG_HOME or HOME.".to_owned(),
            Error::InvalidPath(path) => {
                let mut r = "fatal: monitors.xml path ".to_owned();
                push_str(&mut r, path.as_str());
                push_str(&mut r, " does not have a parent directory.");
                r
            },
            Error::MissingPhysicalMonitor { connector } => {
                let mut r = "fatal: monitors.xml writer could not find physical monitor ".to_owned();
                push_str(&mut r, connector.as_str());
                push_str(&mut r, " in the current config.");
                r
            },
            Error::MissingMode { connector, mode_id } => {
                let mut r = "fatal: monitors.xml writer could not find mode ".to_owned();
                push_str(&mut r, mode_id.as_str());
                push_str(&mut r, " for ");
                push_str(&mut r, connector.as_str());
                push_str(&mut r, ".");
                r
            },
            Error::Io { path, message } => {
                let mut r = "fatal: failed to write monitors.xml at ".to_owned();
                push_str(&mut r, path.as_str());
                push_str(&mut r, ": ");
                push_str(&mut r, message.as_str());
                r
            },
        }
    }
}

/// An `Error` as plain values.
pub enum XmlFailure {
    MissingConfigHome,
    InvalidPath(Seq<char>),
    MissingPhysicalMonitor(Seq<char>),
    MissingMode(Seq<char>, Seq<char>),
    Io(Seq<char>, Seq<char>),
}

impl View for Error {
    type V = XmlFailure;

    open spec fn view(&self) -> XmlFailure {
        match self {
            Error::MissingConfigHome => XmlFailure::MissingConfigHome,
            Error::InvalidPath(p) => XmlFailure::InvalidPath(p@),
            Error::MissingPhysicalMonitor { connector } => XmlFailure::MissingPhysicalMonitor(connector@),
            Error::MissingMode { connector, mode_id } => XmlFailure::MissingMode(connector@, mode_id@),
            Error::Io { path, message } => XmlFailure::Io(path@, message@),
        }
    }
}

// ---------------------------------------------------------------------------
// Escaping
// ---------------------------------------------------------------------------

/// The XML text of one character: the five predefined entities for `&`, `<`,
/// `>`, `"` and `'`, the character itself otherwise.
pub open spec fn escape_char(c: char) -> Seq<char> {
    if c == '&' {
        "&amp;"@
    } else if c == '<' {
        "&lt;"@
    } else if c == '>' {
        "&gt;"@
    } else if c == '"' {
        "&quot;"@
    } else if c == '\'' {
        "&apos;"@
    } else {
        seq![c]
    }
}

/// The XML text of a string, character by character.
pub open spec fn escape_spec(s: Seq<char>) -> Seq<char>
    decreases s.len(),
{
    if s.len() == 0 {
        Seq::empty()
    } else {
        escape_spec(s.drop_last()) + escape_char(s.last())
    }
}

/// Whether a character may stand unescaped in XML text and attributes.
pub open spec fn plain_xml_char(c: char) -> bool {
    c != '<' && c != '>' && c != '"' && c != '\''
}

/// Escaped text holds no `<`, `>`, `"` or `'`: whatever a value holds, it
/// cannot open or close a tag or a quoted attribute.
pub proof fn lemma_escape_is_plain(s: Seq<char>)
    ensures
        forall|i: int| 0 <= i < escape_spec(s).len() ==> plain_xml_char(#[trigger] escape_spec(s)[i]),
    decreases s.len(),
{
    reveal_strlit("&amp;");
    reveal_strlit("&lt;");
    reveal_strlit("&gt;");
    reveal_strlit("&quot;");
    reveal_strlit("&apos;");
    if s.len() > 0 {
        lemma_escape_is_plain(s.drop_last());
        let head = escape_spec(s.drop_last());
        let tail = escape_char(s.last());
        assert forall|i: int| 0 <= i < escape_spec(s).len() implies plain_xml_char(#[trigger] escape_spec(s)[i]) by {
            if i < head.len() {
                assert(escape_spec(s)[i] == head[i]);
            } else {
                assert(escape_spec(s)[i] == tail[i - head.len()]);
            }
        }
    }
}

/// Text without the five special characters is its own escape.
pub proof fn lemma_escape_identity(s: Seq<char>)
    requires
        forall|i: int| 0 <= i < s.len() ==> plain_xml_char(#[trigger] s[i]) && s[i] != '&',
    ensures
        escape_spec(s) == s,
    decreases s.len(),
{
    if s.len() > 0 {
        lemma_escape_identity(s.drop_last());
        assert(s.drop_last().push(s.last()) =~= s);
        assert(s[s.len() - 1] == s.last());
    }
}

/// Escapes the five characters that XML gives a meaning.
pub fn escape_xml(value: &str) -> (r: String)
    ensures
        r@ == escape_spec(value@),
{
    let chars = chars_of(value);
    let mut escaped = String::new();
    let mut i: usize = 0;
    while i < chars.len()
        invariant
            0 <= i <= chars@.len(),
            chars@ == value@,
            escaped@ == escape_spec(chars@.take(i as int)),
        decreases chars@.len() - i,
    {
        let ch = chars[i];
        let ghost before = escaped@;
        if ch == '&' {
            push_str(&mut escaped, "&amp;");
        } else if ch == '<' {
            push_str(&mut escaped, "&lt;");
        } else if ch == '>' {
            push_str(&mut escaped, "&gt;");
        } else if ch == '"' {
            push_str(&mut escaped, "&quot;");
        } else if ch == '\'' {
            push_str(&mut escaped, "&apos;");
        } else {
            push_char(&mut escaped, ch);
            assert(before.push(ch) =~= before + seq![ch]);
        }
        assert(chars@.take(i + 1).drop_last() =~= chars@.take(i as int));
        assert(chars@.take(i + 1).last() == ch);
        i = i + 1;
    }
    assert(chars@.take(i as int) =~= chars@);
    escaped
}

// ---------------------------------------------------------------------------
// Transforms
// ---------------------------------------------------------------------------

/// Whether a transform is flipped, as `monitors.xml` writes it.
pub open spec fn flipped_name(transform: u32) -> Seq<char> {
    if transform & 4 == 0 {
        "no"@
    } else {
        "yes"@
    }
}

/// The rotation and flip of a transform, as `monitors.xml` writes them.
pub fn transform_to_xml(transform: u32) -> (r: (&'static str, &'static str))
    ensures
        r.0@ == rotation_name(transform),
        r.1@ == flipped_name(transform),
{
    let rotation = rotation_bits_name(transform);
    let flipped = if transform & 4 == 0 {
        "no"
    } else {
        "yes"
    };
    (rotation, flipped)
}

// ---------------------------------------------------------------------------
// The document
// ---------------------------------------------------------------------------

/// Whether some planned monitor is on the connector.
pub open spec fn connector_active(configs: Seq<ApplyConfigView>, connector: Seq<char>) -> bool {
    exists|i: int, j: int|
        0 <= i < configs.len() && 0 <= j < configs[i].monitors.len() && (#[trigger] configs[i].monitors[j]).connector
            == connector
}

/// The connectors of the planned monitors, in order.
pub open spec fn connectors_of(configs: Seq<ApplyConfigView>) -> Seq<Seq<char>>
    decreases configs.len(),
{
    if configs.len() == 0 {
        Seq::empty()
    } else {
        connectors_of(configs.drop_last()) + configs.last().monitors.map_values(|m: ApplyMonitorView| m.connector)
    }
}

proof fn lemma_connectors_of(configs: Seq<ApplyConfigView>, connector: Seq<char>)
    ensures
        connectors_of(configs).contains(connector) <==> connector_active(configs, connector),
    decreases configs.len(),
{
    if configs.len() > 0 {
        let rest = configs.drop_last();
        lemma_connectors_of(rest, connector);
        let last = configs.last().monitors.map_values(|m: ApplyMonitorView| m.connector);
        let all = connectors_of(configs);
        assert(all == connectors_of(rest) + last);
        if connector_active(configs, connector) {
            let (i, j) = choose|i: int, j: int|
                0 <= i < configs.len() && 0 <= j < configs[i].monitors.len() && (#[trigger] configs[i].monitors[j]).connector
                    == connector;
            if i < configs.len() - 1 {
                assert(rest[i].monitors[j].connector == connector);
                assert(connector_active(rest, connector));
                let w = choose|w: int| 0 <= w < connectors_of(rest).len() && connectors_of(rest)[w] == connector;
                assert(all[w] == connector);
            } else {
                assert(last[j] == connector);
                assert(all[connectors_of(rest).len() + j] == connector);
            }
        }
        if all.contains(connector) {
            let w = choose|w: int| 0 <= w < all.len() && all[w] == connector;
            if w < connectors_of(rest).len() {
                assert(connectors_of(rest)[w] == connector);
                let (i, j) = choose|i: int, j: int|
                    0 <= i < rest.len() && 0 <= j < rest[i].monitors.len() && (#[trigger] rest[i].monitors[j]).connector
                        == connector;
                assert(configs[i].monitors[j].connector == connector);
            } else {
                let j = w - connectors_of(rest).len();
                assert(last[j] == connector);
                assert(configs[configs.len() - 1].monitors[j].connector == connector);
            }
        }
    }
}

/// The connectors that the planned layout uses.
pub fn active_connectors(configs: &Vec<ApplyConfig>) -> (r: Vec<String>)
    ensures
        forall|c: Seq<char>| #[trigger] string_views(r@).contains(c) <==> connector_active(config_views(configs@), c),
{
    let ghost views = config_views(configs@);
    let mut r: Vec<String> = Vec::new();
    let mut i: usize = 0;
    while i < configs.len()
        invariant
            0 <= i <= configs@.len(),
            views == config_views(configs@),
            string_views(r@) == connectors_of(views.take(i as int)),
        decreases configs@.len() - i,
    {
        let ghost start = string_views(r@);
        let monitors = &configs[i].monitors;
        let ghost mviews = views[i as int].monitors;
        let mut j: usize = 0;
        while j < monitors.len()
            invariant
                0 <= j <= monitors@.len(),
                i < configs@.len(),
                *monitors == configs@[i as int].monitors,
                views == config_views(configs@),
                mviews == views[i as int].monitors,
                mviews.len() == monitors@.len(),
                string_views(r@) == start + mviews.take(j as int).map_values(|m: ApplyMonitorView| m.connector),
            decreases monitors@.len() - j,
        {
            let ghost before = string_views(r@);
            r.push(monitors[j].connector.clone());
            assert(string_views(r@) =~= before.push(mviews[j as int].connector));
            assert(mviews.take(j + 1).map_values(|m: ApplyMonitorView| m.connector) =~= mviews.take(j as int).map_values(
                |m: ApplyMonitorView| m.connector,
            ).push(mviews[j as int].connector));
            j = j + 1;
        }
        assert(mviews.take(j as int) =~= mviews);
        assert(views.take(i + 1).drop_last() =~= views.take(i as int));
        assert(views.take(i + 1).last() == views[i as int]);
        i = i + 1;
    }
    assert(views.take(i as int) =~= views);
    proof {
        assert forall|c: Seq<char>| #[trigger] string_views(r@).contains(c) <==> connector_active(views, c) by {
            lemma_connectors_of(views, c);
        }
    }
    r
}

pub open spec fn string_views(v: Seq<String>) -> Seq<Seq<char>> {
    v.map_values(|s: String| s@)
}

fn contains_string(v: &Vec<String>, s: &str) -> (r: bool)
    ensures
        r == string_views(v@).contains(s@),
{
    let mut i: usize = 0;
    while i < v.len()
        invariant
            0 <= i <= v@.len(),
            forall|k: int| 0 <= k < i ==> string_views(v@)[k] != s@,
        decreases v@.len() - i,
    {
        if str_eq(v[i].as_str(), s) {
            assert(string_views(v@)[i as int] == s@);
            return true;
        }
        i = i + 1;
    }
    false
}

/// The `<color-mode>` lines of a monitor's properties, appended to `acc`.
pub open spec fn append_properties(acc: Seq<char>, properties: Seq<ApplyMonitorProperty>) -> Seq<char>
    decreases properties.len(),
{
    if properties.len() == 0 {
        acc
    } else {
        match properties.last() {
            ApplyMonitorProperty::ColorMode(c) => append_properties(acc, properties.drop_last())
                + "        <color-mode>"@ + c.spec_name() + "</color-mode>\n"@,
        }
    }
}

/// A `<monitor>` element, appended to `acc`.
pub open spec fn append_monitor(
    acc: Seq<char>,
    pm: PhysicalMonitor,
    mode: Mode,
    properties: Seq<ApplyMonitorProperty>,
    rate: Seq<char>,
) -> Seq<char> {
    append_properties(
        acc + "      <monitor>\n"@ + "        <monitorspec>\n"@ + "          <connector>"@ + escape_spec(pm.connector@)
            + "</connector>\n"@ + "          <vendor>"@ + escape_spec(pm.vendor@) + "</vendor>\n"@
            + "          <product>"@ + escape_spec(pm.product@) + "</product>\n"@ + "          <serial>"@
            + escape_spec(pm.serial@) + "</serial>\n"@ + "        </monitorspec>\n"@ + "        <mode>\n"@
            + "          <width>"@ + signed_decimal(mode.width as int) + "</width>\n"@ + "          <height>"@
            + signed_decimal(mode.height as int) + "</height>\n"@ + "          <rate>"@ + rate + "</rate>\n"@
            + "        </mode>\n"@,
        properties,
    ) + "      </monitor>\n"@
}

/// The index of the first mode with the id (the number of modes where none has it).
pub open spec fn mode_index(pm: PhysicalMonitor, id: Seq<char>) -> int {
    first_index(pm.modes@.len(), |i: int| pm.modes@[i].id@ == id)
}

/// Whether `labels[p][k]` is there for every mode `k` of every monitor `p`.
pub open spec fn labels_fit(config: DisplayConfig, labels: Seq<Vec<String>>) -> bool {
    &&& labels.len() == config.monitors@.len()
    &&& forall|p: int| 0 <= p < labels.len() ==> (#[trigger] labels[p])@.len() == config.monitors@[p].modes@.len()
}

/// The planned monitors of a logical monitor, appended to `acc`; each is
/// written from its physical monitor and mode, which must exist.
/// `rates[p][k]` is the text of the refresh rate of mode `k` of monitor `p`.
pub open spec fn append_monitors(
    acc: Seq<char>,
    config: DisplayConfig,
    monitors: Seq<ApplyMonitorView>,
    rates: Seq<Vec<String>>,
) -> Result<Seq<char>, XmlFailure>
    decreases monitors.len(),
{
    if monitors.len() == 0 {
        Ok(acc)
    } else {
        match append_monitors(acc, config, monitors.drop_last(), rates) {
            Err(f) => Err(f),
            Ok(a) => {
                let m = monitors.last();
                let p = config.physical_index(m.connector);
                if p == config.monitors@.len() {
                    Err(XmlFailure::MissingPhysicalMonitor(m.connector))
                } else {
                    let pm = config.monitors@[p];
                    let k = mode_index(pm, m.mode_id);
                    if k == pm.modes@.len() {
                        Err(XmlFailure::MissingMode(m.connector, m.mode_id))
                    } else {
                        Ok(append_monitor(a, pm, pm.modes@[k], m.properties, rates[p]@[k]@))
                    }
                }
            },
        }
    }
}

/// The head of a `<logicalmonitor>` element: place, scale, primary flag and
/// transform, appended to `acc`. The transform is written only where the
/// logical monitor is rotated or flipped.
pub open spec fn append_logical_head(acc: Seq<char>, c: ApplyConfigView, scale: Seq<char>) -> Seq<char> {
    let a1 = acc + "    <logicalmonitor>\n"@ + "      <x>"@ + signed_decimal(c.x_pos as int) + "</x>\n"@ + "      <y>"@
        + signed_decimal(c.y_pos as int) + "</y>\n"@ + "      <scale>"@ + scale + "</scale>\n"@;
    let a2 = if c.primary {
        a1 + "      <primary>yes</primary>\n"@
    } else {
        a1
    };
    if rotation_name(c.transform) != "normal"@ || flipped_name(c.transform) != "no"@ {
        a2 + "      <transform>\n"@ + "        <rotation>"@ + rotation_name(c.transform) + "</rotation>\n"@
            + "        <flipped>"@ + flipped_name(c.transform) + "</flipped>\n"@ + "      </transform>\n"@
    } else {
        a2
    }
}

/// The `<logicalmonitor>` elements of the planned layout, appended to `acc`.
pub open spec fn append_logical_monitors(
    acc: Seq<char>,
    config: DisplayConfig,
    configs: Seq<ApplyConfigView>,
    scales: Seq<String>,
    rates: Seq<Vec<String>>,
) -> Result<Seq<char>, XmlFailure>
    decreases configs.len(),
{
    if configs.len() == 0 {
        Ok(acc)
    } else {
        let n = configs.len() - 1;
        match append_logical_monitors(acc, config, configs.drop_last(), scales, rates) {
            Err(f) => Err(f),
            Ok(a) => match append_monitors(append_logical_head(a, configs[n], scales[n]@), config, configs[n].monitors, rates) {
                Err(f) => Err(f),
                Ok(b) => Ok(b + "    </logicalmonitor>\n"@),
            },
        }
    }
}

/// A `<disabled>` element for a monitor, appended to `acc`.
pub open spec fn append_disabled_monitor(acc: Seq<char>, pm: PhysicalMonitor) -> Seq<char> {
    acc + "    <disabled>\n"@ + "      <monitorspec>\n"@ + "        <connector>"@ + escape_spec(pm.connector@)
        + "</connector>\n"@ + "        <vendor>"@ + escape_spec(pm.vendor@) + "</vendor>\n"@ + "        <product>"@
        + escape_spec(pm.product@) + "</product>\n"@ + "        <serial>"@ + escape_spec(pm.serial@) + "</serial>\n"@
        + "      </monitorspec>\n"@ + "    </disabled>\n"@
}

/// `<disabled>` elements for the monitors that the layout leaves out, in order.
pub open spec fn append_disabled(acc: Seq<char>, monitors: Seq<PhysicalMonitor>, configs: Seq<ApplyConfigView>) -> Seq<char>
    decreases monitors.len(),
{
    if monitors.len() == 0 {
        acc
    } else {
        let a = append_disabled(acc, monitors.drop_last(), configs);
        if connector_active(configs, monitors.last().connector@) {
            a
        } else {
            append_disabled_monitor(a, monitors.last())
        }
    }
}

/// The whole `monitors.xml` document for the planned layout, or the first
/// planned monitor whose physical monitor or mode is missing. The layout mode
/// is the one given, else the current one.
pub open spec fn render_spec(
    config: DisplayConfig,
    layout_mode: Option<LayoutMode>,
    configs: Seq<ApplyConfigView>,
    scales: Seq<String>,
    rates: Seq<Vec<String>>,
) -> Result<Seq<char>, XmlFailure> {
    let mode = match layout_mode {
        Some(m) => m,
        None => config.known_properties.layout_mode,
    };
    let head = Seq::<char>::empty() + "<monitors version=\"2\">\n"@ + "  <configuration>\n"@ + "    <layoutmode>"@
        + mode.spec_name() + "</layoutmode>\n"@;
    match append_logical_monitors(head, config, configs, scales, rates) {
        Err(f) => Err(f),
        Ok(a) => Ok(append_disabled(a, config.monitors@, configs) + "  </configuration>\n"@ + "</monitors>\n"@),
    }
}

fn write_properties(xml: &mut String, properties: &Vec<ApplyMonitorProperty>)
    ensures
        final(xml)@ == append_properties(old(xml)@, properties@),
{
    let mut i: usize = 0;
    while i < properties.len()
        invariant
            0 <= i <= properties@.len(),
            xml@ == append_properties(old(xml)@, properties@.take(i as int)),
        decreases properties@.len() - i,
    {
        assert(properties@.take(i + 1).drop_last() =~= properties@.take(i as int));
        assert(properties@.take(i + 1).last() == properties@[i as int]);
        match properties[i] {
            ApplyMonitorProperty::ColorMode(c) => {
                push_str(xml, "        <color-mode>");
                push_str(xml, c.as_str());
                push_str(xml, "</color-mode>\n");
            },
        }
        i = i + 1;
    }
    assert(properties@.take(i as int) =~= properties@);
}

fn write_monitor(
    xml: &mut String,
    physical_monitor: &PhysicalMonitor,
    mode: &Mode,
    properties: &Vec<ApplyMonitorProperty>,
    rate: &str,
)
    ensures
        final(xml)@ == append_monitor(old(xml)@, *physical_monitor, *mode, properties@, rate@),
{
    push_str(xml, "      <monitor>\n");
    push_str(xml, "        <monitorspec>\n");
    push_str(xml, "          <connector>");
    push_str(xml, escape_xml(physical_monitor.connector.as_str()).as_str());
    push_str(xml, "</connector>\n");
    push_str(xml, "          <vendor>");
    push_str(xml, escape_xml(physical_monitor.vendor.as_str()).as_str());
    push_str(xml, "</vendor>\n");
    push_str(xml, "          <product>");
    push_str(xml, escape_xml(physical_monitor.product.as_str()).as_str());
    push_str(xml, "</product>\n");
    push_str(xml, "          <serial>");
    push_str(xml, escape_xml(physical_monitor.serial.as_str()).as_str());
    push_str(xml, "</serial>\n");
    push_str(xml, "        </monitorspec>\n");
    push_str(xml, "        <mode>\n");
    push_str(xml, "          <width>");
    push_signed_decimal(xml, mode.width as i64);
    push_str(xml, "</width>\n");
    push_str(xml, "          <height>");
    push_signed_decimal(xml, mode.height as i64);
    push_str(xml, "</height>\n");
    push_str(xml, "          <rate>");
    push_str(xml, rate);
    push_str(xml, "</rate>\n");
    push_str(xml, "        </mode>\n");
    write_properties(xml, properties);
    push_str(xml, "      </monitor>\n");
}

pub fn physical_position(config: &DisplayConfig, connector: &str) -> (r: usize)
    ensures
        r == config.physical_index(connector@),
{
    let ghost pred = |i: int| config.monitors@[i].connector@ == connector@;
    let mut i: usize = 0;
    while i < config.monitors.len()
        invariant
            0 <= i <= config.monitors@.len(),
            pred == (|i: int| config.monitors@[i].connector@ == connector@),
            forall|j: int| 0 <= j < i ==> !#[trigger] pred(j),
        decreases config.monitors@.len() - i,
    {
        if str_eq(config.monitors[i].connector.as_str(), connector) {
            proof {
                lemma_first_index(config.monitors@.len(), pred, i as int);
            }
            return i;
        }
        i = i + 1;
    }
    proof {
        lemma_first_index(config.monitors@.len(), pred, i as int);
    }
    i
}

proof fn lemma_monitors_failure_sticks(
    acc: Seq<char>,
    config: DisplayConfig,
    monitors: Seq<ApplyMonitorView>,
    rates: Seq<Vec<String>>,
    k: int,
)
    requires
        0 <= k <= monitors.len(),
        append_monitors(acc, config, monitors.take(k), rates) is Err,
    ensures
        append_monitors(acc, config, monitors, rates) == append_monitors(acc, config, monitors.take(k), rates),
    decreases monitors.len() - k,
{
    if k < monitors.len() {
        assert(monitors.take(k + 1).drop_last() =~= monitors.take(k));
        lemma_monitors_failure_sticks(acc, config, monitors, rates, k + 1);
    } else {
        assert(monitors.take(k) =~= monitors);
    }
}

proof fn lemma_logical_failure_sticks(
    acc: Seq<char>,
    config: DisplayConfig,
    configs: Seq<ApplyConfigView>,
    scales: Seq<String>,
    rates: Seq<Vec<String>>,
    k: int,
)
    requires
        0 <= k <= configs.len(),
        append_logical_monitors(acc, config, configs.take(k), scales, rates) is Err,
    ensures
        append_logical_monitors(acc, config, configs, scales, rates) == append_logical_monitors(
            acc,
            config,
            configs.take(k),
            scales,
            rates,
        ),
    decreases configs.len() - k,
{
    if k < configs.len() {
        assert(configs.take(k + 1).drop_last() =~= configs.take(k));
        assert(configs.take(k + 1)[k] == configs[k]);
        lemma_logical_failure_sticks(acc, config, configs, scales, rates, k + 1);
    } else {
        assert(configs.take(k) =~= configs);
    }
}

/// Renders the planned layout as `monitors.xml`. `scales[i]` is the text of
/// the scale of `configs[i]`, and `rates[p][k]` that of the refresh rate of
/// mode `k` of physical monitor `p`.
pub fn render_monitors_xml(
    config: &DisplayConfig,
    layout_mode: Option<LayoutMode>,
    configs: &Vec<ApplyConfig>,
    scales: &Vec<String>,
    rates: &Vec<Vec<String>>,
) -> (r: Result<String, Error>)
    requires
        scales@.len() == configs@.len(),
        labels_fit(*config, rates@),
    ensures
        match render_spec(*config, layout_mode, config_views(configs@), scales@, rates@) {
            Ok(x) => r matches Ok(s) && s@ == x,
            Err(f) => r matches Err(e) && e@ == f,
        },
{
    let ghost views = config_views(configs@);
    let mode = match layout_mode {
        Some(m) => m,
        None => config.known_properties.layout_mode,
    };
    let active = active_connectors(configs);
    let mut xml = String::new();
    push_str(&mut xml, "<monitors version=\"2\">\n");
    push_str(&mut xml, "  <configuration>\n");
    push_str(&mut xml, "    <layoutmode>");
    push_str(&mut xml, mode.as_str());
    push_str(&mut xml, "</layoutmode>\n");
    let ghost head = xml@;
    let ghost finish = |a: Seq<char>| append_disabled(a, config.monitors@, views) + "  </configuration>\n"@ + "</monitors>\n"@;
    assert(render_spec(*config, layout_mode, views, scales@, rates@) == match append_logical_monitors(
        head,
        *config,
        views,
        scales@,
        rates@,
    ) {
        Err(f) => Err(f),
        Ok(a) => Ok(finish(a)),
    });
    let mut i: usize = 0;
    assert(views.take(0) =~= Seq::<ApplyConfigView>::empty());
    while i < configs.len()
        invariant
            0 <= i <= configs@.len(),
            views == config_views(configs@),
            scales@.len() == configs@.len(),
            labels_fit(*config, rates@),
            append_logical_monitors(head, *config, views.take(i as int), scales@, rates@) == Ok::<Seq<char>, XmlFailure>(
                xml@,
            ),
            render_spec(*config, layout_mode, views, scales@, rates@) == match append_logical_monitors(
                head,
                *config,
                views,
                scales@,
                rates@,
            ) {
                Err(f) => Err(f),
                Ok(a) => Ok(finish(a)),
            },
        decreases configs@.len() - i,
    {
        let c = &configs[i];
        let ghost prev = xml@;
        assert(views.take(i + 1).drop_last() =~= views.take(i as int));
        assert(views.take(i + 1)[i as int] == views[i as int]);
        push_str(&mut xml, "    <logicalmonitor>\n");
        push_str(&mut xml, "      <x>");
        push_signed_decimal(&mut xml, c.x_pos as i64);
        push_str(&mut xml, "</x>\n");
        push_str(&mut xml, "      <y>");
        push_signed_decimal(&mut xml, c.y_pos as i64);
        push_str(&mut xml, "</y>\n");
        push_str(&mut xml, "      <scale>");
        push_str(&mut xml, scales[i].as_str());
        push_str(&mut xml, "</scale>\n");
        if c.primary {
            push_str(&mut xml, "      <primary>yes</primary>\n");
        }
        let (rotation, flipped) = transform_to_xml(c.transform);
        if !str_eq(rotation, "normal") || !str_eq(flipped, "no") {
            push_str(&mut xml, "      <transform>\n");
            push_str(&mut xml, "        <rotation>");
            push_str(&mut xml, rotation);
            push_str(&mut xml, "</rotation>\n");
            push_str(&mut xml, "        <flipped>");
            push_str(&mut xml, flipped);
            push_str(&mut xml, "</flipped>\n");
            push_str(&mut xml, "      </transform>\n");
        }
        let ghost start = xml@;
        assert(start == append_logical_head(
            append_logical_monitors(head, *config, views.take(i as int), scales@, rates@)->Ok_0,
            views[i as int],
            scales@[i as int]@,
        ));
        let ghost mviews = views[i as int].monitors;
        let mut j: usize = 0;
        assert(mviews.take(0) =~= Seq::<ApplyMonitorView>::empty());
        while j < c.monitors.len()
            invariant
                0 <= j <= c.monitors@.len(),
                i < configs@.len(),
                *c == configs@[i as int],
                views == config_views(configs@),
                mviews == views[i as int].monitors,
                mviews.len() == c.monitors@.len(),
                labels_fit(*config, rates@),
                scales@.len() == configs@.len(),
                append_logical_monitors(head, *config, views.take(i as int), scales@, rates@) == Ok::<Seq<char>, XmlFailure>(
                    prev,
                ),
                start == append_logical_head(prev, views[i as int], scales@[i as int]@),
                views.take(i + 1).drop_last() == views.take(i as int),
                views.take(i + 1)[i as int] == views[i as int],
                render_spec(*config, layout_mode, views, scales@, rates@) == match append_logical_monitors(
                    head,
                    *config,
                    views,
                    scales@,
                    rates@,
                ) {
                    Err(f) => Err(f),
                    Ok(a) => Ok(finish(a)),
                },
                append_monitors(start, *config, mviews.take(j as int), rates@) == Ok::<Seq<char>, XmlFailure>(xml@),
            decreases c.monitors@.len() - j,
        {
            let monitor = &c.monitors[j];
            assert(mviews.take(j + 1).drop_last() =~= mviews.take(j as int));
            assert(mviews.take(j + 1).last() == mviews[j as int]);
            assert(mviews[j as int] == monitor@);
            let p = physical_position(config, monitor.connector.as_str());
            if p >= config.monitors.len() {
                proof {
                    lemma_monitors_failure_sticks(start, *config, mviews, rates@, j + 1);
                    lemma_logical_failure_sticks(head, *config, views, scales@, rates@, i + 1);
                }
                return Err(Error::MissingPhysicalMonitor { connector: monitor.connector.clone() });
            }
            let physical_monitor = &config.monitors[p];
            let k = mode_with_id(&physical_monitor.modes, monitor.mode_id.as_str());
            if k >= physical_monitor.modes.len() {
                proof {
                    lemma_monitors_failure_sticks(start, *config, mviews, rates@, j + 1);
                    lemma_logical_failure_sticks(head, *config, views, scales@, rates@, i + 1);
                }
                return Err(Error::MissingMode { connector: monitor.connector.clone(), mode_id: monitor.mode_id.clone() });
            }
            write_monitor(&mut xml, physical_monitor, &physical_monitor.modes[k], &monitor.properties, rates[p][k].as_str());
            j = j + 1;
        }
        assert(mviews.take(j as int) =~= mviews);
        push_str(&mut xml, "    </logicalmonitor>\n");
        i = i + 1;
    }
    assert(views.take(i as int) =~= views);
    let ghost body = xml@;
    let mut p: usize = 0;
    assert(config.monitors@.take(0) =~= Seq::<PhysicalMonitor>::empty());
    while p < config.monitors.len()
        invariant
            0 <= p <= config.monitors@.len(),
            views == config_views(configs@),
            forall|c: Seq<char>| #[trigger] string_views(active@).contains(c) <==> connector_active(views, c),
            xml@ == append_disabled(body, config.monitors@.take(p as int), views),
        decreases config.monitors@.len() - p,
    {
        let monitor = &config.monitors[p];
        assert(config.monitors@.take(p + 1).drop_last() =~= config.monitors@.take(p as int));
        assert(config.monitors@.take(p + 1).last() == *monitor);
        if !contains_string(&active, monitor.connector.as_str()) {
            push_str(&mut xml, "    <disabled>\n");
            push_str(&mut xml, "      <monitorspec>\n");
            push_str(&mut xml, "        <connector>");
            push_str(&mut xml, escape_xml(monitor.connector.as_str()).as_str());
            push_str(&mut xml, "</connector>\n");
            push_str(&mut xml, "        <vendor>");
            push_str(&mut xml, escape_xml(monitor.vendor.as_str()).as_str());
            push_str(&mut xml, "</vendor>\n");
            push_str(&mut xml, "        <product>");
            push_str(&mut xml, escape_xml(monitor.product.as_str()).as_str());
            push_str(&mut xml, "</product>\n");
            push_str(&mut xml, "        <serial>");
            push_str(&mut xml, escape_xml(monitor.serial.as_str()).as_str());
            push_str(&mut xml, "</serial>\n");
            push_str(&mut xml, "      </monitorspec>\n");
            push_str(&mut xml, "    </disabled>\n");
        }
        p = p + 1;
    }
    assert(config.monitors@.take(p as int) =~= config.monitors@);
    push_str(&mut xml, "  </configuration>\n");
    push_str(&mut xml, "</monitors>\n");
    Ok(xml)
}

} // verus!

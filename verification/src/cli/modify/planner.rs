//! The layout planner: starts from the full current layout and applies one
//! change after another to the logical monitor that holds a connector.

use vstd::prelude::*;

use crate::display_config::proxied_methods::{
    config_views, duplicate_configs, monitor_views, ApplyConfig, ApplyConfigView, ApplyMonitor,
    ApplyMonitorProperty, ApplyMonitorView, ColorMode,
};
use crate::display_config::{DisplayConfig, LogicalMonitor, Monitor, Mode};
use crate::search::{first_index, last_index, lemma_first_index, lemma_first_index_props, lemma_last_index};
use crate::text::str_eq;

verus! {

/// Why the planner cannot act.
#[derive(Debug)]
pub enum Error {
    ConnectorNotFound(String),
    PhysicalMonitorNotFound(String),
    CurrentModeNotFound(String),
}

impl Error {
    /// What the error says to the user.
    pub open spec fn message_text(&self) -> Seq<char> {
        match self {
            Error::ConnectorNotFound(c) => "fatal: planner could not find connector "@ + c@ + "."@,
            Error::PhysicalMonitorNotFound(c) => "fatal: planner could not find physical monitor "@ + c@
                + " in the current config."@,
            Error::CurrentModeNotFound(c) => "fatal: planner could not determine the current mode for "@ + c@
                + "."@,
        }
    }

    pub fn message(&self) -> (r: String)
        ensures
            r@ == self.message_text(),
    {
        let (head, c, tail) = match self {
            Error::ConnectorNotFound(c) => ("fatal: planner could not find connector ", c, "."),
            Error::PhysicalMonitorNotFound(c) => (
                "fatal: planner could not find physical monitor ",
                c,
                " in the current config.",
            ),
            Error::CurrentModeNotFound(c) => ("fatal: planner could not determine the current mode for ", c, "."),
        };
        let mut r = head.to_owned();
        crate::text::push_str(&mut r, c.as_str());
        crate::text::push_str(&mut r, tail);
        r
    }
}

/// Why a relative placement cannot be planned.
#[derive(Debug, Clone, Copy, PartialEq, Eq, Structural)]
pub enum PlacementError {
    /// The output to place is not in the plan.
    ConnectorNotPlanned,
    /// The output to place it next to is not in the plan.
    ReferenceNotPlanned,
    /// The size of one of the two logical monitors is unknown.
    SizeUnknown,
    /// The position leaves the `i32` coordinate range.
    OutOfRange,
}

/// The planned layout: one entry per logical monitor.
///
/// A connector's changes go to the last planned logical monitor that holds
/// it. A map from connector to entry, filled in plan order, would give the
/// same entry (a later insert replaces an earlier one); a search of the few
/// planned entries gives it without a map keyed by strings, whose contents
/// vstd's specifications of `HashMap` do not let a contract state.
pub struct MonitorPlanner {
    configs: Vec<ApplyConfig>,
}

impl View for MonitorPlanner {
    type V = Seq<ApplyConfigView>;

    closed spec fn view(&self) -> Seq<ApplyConfigView> {
        config_views(self.configs@)
    }
}

/// Whether a planned logical monitor holds the connector.
pub open spec fn has_connector(config: ApplyConfigView, connector: Seq<char>) -> bool {
    exists|j: int| 0 <= j < config.monitors.len() && (#[trigger] config.monitors[j]).connector == connector
}

/// The planned logical monitor that a connector's changes go to: the last one
/// that holds it, or `-1` where none does.
pub open spec fn target_of(configs: Seq<ApplyConfigView>, connector: Seq<char>) -> int {
    last_index(configs.len(), |i: int| has_connector(configs[i], connector))
}

/// Index of the first monitor on the connector in a planned logical monitor.
pub open spec fn monitor_index(config: ApplyConfigView, connector: Seq<char>) -> int {
    first_index(config.monitors.len(), |j: int| config.monitors[j].connector == connector)
}

// ---------------------------------------------------------------------------
// Building the plan from the current state
// ---------------------------------------------------------------------------

/// What planning one monitor of a logical monitor comes to.
pub enum MonitorOutcome {
    /// The physical monitor and the id of its current (or else preferred) mode.
    Found(int, Seq<char>),
    NoPhysicalMonitor,
    NoMode(Seq<char>),
}

pub open spec fn first_current_mode(modes: Seq<Mode>) -> int {
    first_index(modes.len(), |i: int| modes[i].known_properties.is_current)
}

pub open spec fn first_preferred_mode(modes: Seq<Mode>) -> int {
    first_index(modes.len(), |i: int| modes[i].known_properties.is_preferred)
}

/// Plans one monitor: its physical monitor by connector, and that monitor's
/// current mode, or else its preferred mode.
pub open spec fn monitor_outcome(config: DisplayConfig, monitor: Monitor) -> MonitorOutcome {
    let p = config.physical_index(monitor.connector@);
    if p == config.monitors@.len() {
        MonitorOutcome::NoPhysicalMonitor
    } else {
        let pm = config.monitors@[p];
        let c = first_current_mode(pm.modes@);
        let f = first_preferred_mode(pm.modes@);
        if c < pm.modes@.len() {
            MonitorOutcome::Found(p, pm.modes@[c].id@)
        } else if f < pm.modes@.len() {
            MonitorOutcome::Found(p, pm.modes@[f].id@)
        } else {
            MonitorOutcome::NoMode(pm.connector@)
        }
    }
}

pub open spec fn outcome_found(o: MonitorOutcome) -> bool {
    o is Found
}

/// Index of the first monitor of the logical monitor that cannot be planned.
pub open spec fn first_unplannable(config: DisplayConfig, lm: LogicalMonitor) -> int {
    first_index(lm.monitors@.len(), |j: int| !outcome_found(monitor_outcome(config, lm.monitors@[j])))
}

/// Whether every monitor of the logical monitor can be planned.
pub open spec fn plannable(config: DisplayConfig, lm: LogicalMonitor) -> bool {
    first_unplannable(config, lm) == lm.monitors@.len()
}

/// Index of the first logical monitor that cannot be planned.
pub open spec fn first_unplannable_logical(config: DisplayConfig) -> int {
    first_index(config.logical_monitors@.len(), |i: int| !plannable(config, config.logical_monitors@[i]))
}

/// Whether `am` is the plan of monitor `m`.
pub open spec fn plans_monitor(config: DisplayConfig, m: Monitor, am: ApplyMonitorView) -> bool {
    match monitor_outcome(config, m) {
        MonitorOutcome::Found(p, id) => am.connector == config.monitors@[p].connector@ && am.mode_id
            == id && am.properties.len() == 0,
        _ => false,
    }
}

/// Whether `ac` is the plan of logical monitor `lm`: the same place, scale,
/// transform and primary flag, and its monitors planned in order.
pub open spec fn plans_logical(config: DisplayConfig, lm: LogicalMonitor, ac: ApplyConfigView) -> bool {
    &&& ac.x_pos == lm.x
    &&& ac.y_pos == lm.y
    &&& ac.scale == lm.scale
    &&& ac.transform == lm.transform
    &&& ac.primary == lm.primary
    &&& ac.monitors.len() == lm.monitors@.len()
    &&& forall|j: int| 0 <= j < lm.monitors@.len() ==> plans_monitor(config, lm.monitors@[j], #[trigger] ac.monitors[j])
}

/// Whether `e` is the error for the monitor that cannot be planned.
pub open spec fn reports(config: DisplayConfig, m: Monitor, e: Error) -> bool {
    match monitor_outcome(config, m) {
        MonitorOutcome::NoPhysicalMonitor => e matches Error::PhysicalMonitorNotFound(c) && c@ == m.connector@,
        MonitorOutcome::NoMode(c) => e matches Error::CurrentModeNotFound(d) && d@ == c,
        MonitorOutcome::Found(_, _) => false,
    }
}

fn plan_monitor(config: &DisplayConfig, monitor: &Monitor) -> (r: Result<ApplyMonitor, Error>)
    ensures
        r matches Ok(am) ==> plans_monitor(*config, *monitor, am@),
        r matches Err(e) ==> reports(*config, *monitor, e),
        r is Ok <==> outcome_found(monitor_outcome(*config, *monitor)),
{
    let physical_monitor = match config.physical_monitor(monitor.connector.as_str()) {
        Some(pm) => pm,
        None => return Err(Error::PhysicalMonitorNotFound(monitor.connector.clone())),
    };
    let ghost p = config.physical_index(monitor.connector@);
    proof {
        lemma_first_index_props(config.monitors@.len(), |i: int| config.monitors@[i].connector@ == monitor.connector@);
    }
    assert(0 <= p < config.monitors@.len());
    let modes = &physical_monitor.modes;
    let ghost cur = |i: int| modes@[i].known_properties.is_current;
    let ghost pref = |i: int| modes@[i].known_properties.is_preferred;
    let mut i: usize = 0;
    while i < modes.len()
        invariant
            0 <= p < config.monitors@.len(),
            p == config.physical_index(monitor.connector@),
            *physical_monitor == config.monitors@[p],
            modes == &physical_monitor.modes,
            0 <= i <= modes@.len(),
            cur == (|i: int| modes@[i].known_properties.is_current),
            forall|j: int| 0 <= j < i ==> !#[trigger] cur(j),
        decreases modes@.len() - i,
    {
        if modes[i].known_properties.is_current {
            proof {
                lemma_first_index(modes@.len(), cur, i as int);
            }
            return Ok(ApplyMonitor { connector: physical_monitor.connector.clone(), mode_id: modes[i].id.clone(), properties: Vec::new() });
        }
        i = i + 1;
    }
    proof {
        lemma_first_index(modes@.len(), cur, i as int);
    }
    let mut k: usize = 0;
    while k < modes.len()
        invariant
            0 <= p < config.monitors@.len(),
            p == config.physical_index(monitor.connector@),
            *physical_monitor == config.monitors@[p],
            modes == &physical_monitor.modes,
            first_current_mode(modes@) == modes@.len(),
            0 <= k <= modes@.len(),
            pref == (|i: int| modes@[i].known_properties.is_preferred),
            forall|j: int| 0 <= j < k ==> !#[trigger] pref(j),
        decreases modes@.len() - k,
    {
        if modes[k].known_properties.is_preferred {
            proof {
                lemma_first_index(modes@.len(), pref, k as int);
            }
            return Ok(ApplyMonitor { connector: physical_monitor.connector.clone(), mode_id: modes[k].id.clone(), properties: Vec::new() });
        }
        k = k + 1;
    }
    proof {
        lemma_first_index(modes@.len(), pref, k as int);
    }
    Err(Error::CurrentModeNotFound(physical_monitor.connector.clone()))
}

/// Plans one logical monitor of the current state.
fn apply_config_for_logical_monitor(config: &DisplayConfig, logical_monitor: &LogicalMonitor) -> (r:
    Result<ApplyConfig, Error>)
    ensures
        r is Ok <==> plannable(*config, *logical_monitor),
        r matches Ok(ac) ==> plans_logical(*config, *logical_monitor, ac@),
        r matches Err(e) ==> reports(*config, logical_monitor.monitors@[first_unplannable(*config, *logical_monitor)], e)
            && first_unplannable(*config, *logical_monitor) < logical_monitor.monitors@.len(),
{
    let ghost pred = |j: int| !outcome_found(monitor_outcome(*config, logical_monitor.monitors@[j]));
    let mut monitors: Vec<ApplyMonitor> = Vec::new();
    let mut j: usize = 0;
    while j < logical_monitor.monitors.len()
        invariant
            0 <= j <= logical_monitor.monitors@.len(),
            pred == (|j: int| !outcome_found(monitor_outcome(*config, logical_monitor.monitors@[j]))),
            forall|k: int| 0 <= k < j ==> !#[trigger] pred(k),
            monitors@.len() == j,
            forall|k: int| 0 <= k < j ==> plans_monitor(*config, logical_monitor.monitors@[k], #[trigger] monitors@[k]@),
        decreases logical_monitor.monitors@.len() - j,
    {
        match plan_monitor(config, &logical_monitor.monitors[j]) {
            Ok(am) => {
                monitors.push(am);
            },
            Err(e) => {
                proof {
                    lemma_first_index(logical_monitor.monitors@.len(), pred, j as int);
                }
                return Err(e);
            },
        }
        j = j + 1;
    }
    proof {
        lemma_first_index(logical_monitor.monitors@.len(), pred, j as int);
    }
    Ok(ApplyConfig {
        x_pos: logical_monitor.x,
        y_pos: logical_monitor.y,
        scale: logical_monitor.scale,
        transform: logical_monitor.transform,
        primary: logical_monitor.primary,
        monitors,
    })
}

fn config_has_connector(config: &ApplyConfig, connector: &str) -> (r: bool)
    ensures
        r == has_connector(config@, connector@),
{
    let mut j: usize = 0;
    while j < config.monitors.len()
        invariant
            0 <= j <= config.monitors@.len(),
            forall|k: int| 0 <= k < j ==> (#[trigger] config.monitors@[k]).connector@ != connector@,
        decreases config.monitors@.len() - j,
    {
        if str_eq(config.monitors[j].connector.as_str(), connector) {
            assert(config@.monitors[j as int].connector == connector@);
            return true;
        }
        j = j + 1;
    }
    proof {
        assert forall|k: int| 0 <= k < config@.monitors.len() implies (#[trigger] config@.monitors[k]).connector
            != connector@ by {
            assert(config.monitors@[k].connector@ != connector@);
        }
    }
    false
}

/// Whether a failed change left the plan as it was and named the connector.
pub open spec fn refused(
    before: Seq<ApplyConfigView>,
    after: Seq<ApplyConfigView>,
    connector: Seq<char>,
    e: Error,
) -> bool {
    &&& after == before
    &&& e matches Error::ConnectorNotFound(c) && c@ == connector
}

/// The monitors other than those on the connector, in order.
pub open spec fn without_connector(monitors: Seq<ApplyMonitorView>, connector: Seq<char>) -> Seq<ApplyMonitorView>
    decreases monitors.len(),
{
    if monitors.len() == 0 {
        monitors
    } else {
        let rest = without_connector(monitors.drop_last(), connector);
        if monitors.last().connector == connector {
            rest
        } else {
            rest.push(monitors.last())
        }
    }
}

/// The plan after taking the connector out of its logical monitor, and
/// dropping that logical monitor where it is left empty.
pub open spec fn removal(configs: Seq<ApplyConfigView>, connector: Seq<char>) -> Seq<ApplyConfigView> {
    let t = target_of(configs, connector);
    if t < 0 {
        configs
    } else {
        let kept = without_connector(configs[t].monitors, connector);
        if kept.len() == 0 {
            configs.remove(t)
        } else {
            configs.update(t, ApplyConfigView { monitors: kept, ..configs[t] })
        }
    }
}

/// The plan after mirroring the connector, with mode `mode_id`, onto the
/// logical monitor at `t`.
pub open spec fn mirrored(configs: Seq<ApplyConfigView>, t: int, connector: Seq<char>, mode_id: Seq<char>) -> Seq<
    ApplyConfigView,
> {
    let added = ApplyMonitorView { connector, mode_id, properties: Seq::empty() };
    configs.update(t, ApplyConfigView { monitors: configs[t].monitors.push(added), ..configs[t] })
}

/// The connector's monitor with the mode `mode_id`.
pub open spec fn with_mode(config: ApplyConfigView, connector: Seq<char>, mode_id: Seq<char>) -> ApplyConfigView {
    let j = monitor_index(config, connector);
    ApplyConfigView {
        monitors: config.monitors.update(j, ApplyMonitorView { mode_id, ..config.monitors[j] }),
        ..config
    }
}

/// The connector's monitor with the color mode as its only property.
pub open spec fn with_color_mode(config: ApplyConfigView, connector: Seq<char>, color_mode: ColorMode) -> ApplyConfigView {
    let j = monitor_index(config, connector);
    ApplyConfigView {
        monitors: config.monitors.update(
            j,
            ApplyMonitorView { properties: seq![ApplyMonitorProperty::ColorMode(color_mode)], ..config.monitors[j] },
        ),
        ..config
    }
}

proof fn lemma_target(configs: Seq<ApplyConfigView>, connector: Seq<char>)
    ensures
        -1 <= target_of(configs, connector) < configs.len(),
        target_of(configs, connector) >= 0 ==> has_connector(configs[target_of(configs, connector)], connector),
{
    crate::search::lemma_last_index_props(configs.len(), |i: int| has_connector(configs[i], connector));
}

proof fn lemma_monitor_index(config: ApplyConfigView, connector: Seq<char>)
    requires
        has_connector(config, connector),
    ensures
        0 <= monitor_index(config, connector) < config.monitors.len(),
        config.monitors[monitor_index(config, connector)].connector == connector,
{
    let pred = |j: int| config.monitors[j].connector == connector;
    lemma_first_index_props(config.monitors.len(), pred);
    let w = choose|w: int| 0 <= w < config.monitors.len() && (#[trigger] config.monitors[w]).connector == connector;
    assert(pred(w));
}

impl MonitorPlanner {
    /// Plans the full current layout, one entry per logical monitor.
    pub fn new(config: &DisplayConfig) -> (r: Result<MonitorPlanner, Error>)
        ensures
            r is Ok <==> first_unplannable_logical(*config) == config.logical_monitors@.len(),
            r matches Ok(p) ==> p@.len() == config.logical_monitors@.len() && forall|i: int|
                0 <= i < p@.len() ==> plans_logical(*config, config.logical_monitors@[i], #[trigger] p@[i]),
            r matches Err(e) ==> ({
                let i = first_unplannable_logical(*config);
                let lm = config.logical_monitors@[i];
                i < config.logical_monitors@.len() && reports(*config, lm.monitors@[first_unplannable(*config, lm)], e)
            }),
    {
        let ghost pred = |i: int| !plannable(*config, config.logical_monitors@[i]);
        let mut configs: Vec<ApplyConfig> = Vec::new();
        let mut i: usize = 0;
        while i < config.logical_monitors.len()
            invariant
                0 <= i <= config.logical_monitors@.len(),
                pred == (|i: int| !plannable(*config, config.logical_monitors@[i])),
                forall|k: int| 0 <= k < i ==> !#[trigger] pred(k),
                configs@.len() == i,
                forall|k: int| 0 <= k < i ==> plans_logical(*config, config.logical_monitors@[k], #[trigger] configs@[k]@),
            decreases config.logical_monitors@.len() - i,
        {
            match apply_config_for_logical_monitor(config, &config.logical_monitors[i]) {
                Ok(ac) => {
                    configs.push(ac);
                },
                Err(e) => {
                    proof {
                        lemma_first_index(config.logical_monitors@.len(), pred, i as int);
                    }
                    return Err(e);
                },
            }
            i = i + 1;
        }
        proof {
            lemma_first_index(config.logical_monitors@.len(), pred, i as int);
        }
        Ok(MonitorPlanner { configs })
    }

    /// The planned logical monitor that a connector's changes go to.
    fn target_index(&self, connector: &str) -> (r: Result<usize, Error>)
        ensures
            r is Ok <==> target_of(self@, connector@) >= 0,
            r matches Ok(t) ==> t == target_of(self@, connector@) && t < self@.len(),
            r matches Err(e) ==> (e matches Error::ConnectorNotFound(c) && c@ == connector@),
    {
        let ghost views = self@;
        let ghost pred = |i: int| has_connector(views[i], connector@);
        let mut i = self.configs.len();
        while i > 0
            invariant
                0 <= i <= self.configs@.len(),
                views == config_views(self.configs@),
                pred == (|i: int| has_connector(views[i], connector@)),
                forall|j: int| i <= j < self.configs@.len() ==> !#[trigger] pred(j),
            decreases i,
        {
            if config_has_connector(&self.configs[i - 1], connector) {
                proof {
                    lemma_last_index(views.len(), pred, i - 1);
                }
                return Ok(i - 1);
            }
            i = i - 1;
        }
        proof {
            lemma_last_index(views.len(), pred, -1);
        }
        Err(Error::ConnectorNotFound(connector.to_owned()))
    }

    /// The index of the connector's first monitor in the logical monitor at `t`.
    fn monitor_position(&self, t: usize, connector: &str) -> (j: usize)
        requires
            t < self@.len(),
            has_connector(self@[t as int], connector@),
        ensures
            j == monitor_index(self@[t as int], connector@),
            j < self.configs@[t as int].monitors@.len(),
    {
        let ghost c = self@[t as int];
        let ghost pred = |j: int| c.monitors[j].connector == connector@;
        proof {
            lemma_monitor_index(c, connector@);
        }
        let mut j: usize = 0;
        while j < self.configs[t].monitors.len()
            invariant
                t < self.configs@.len(),
                c == self.configs@[t as int]@,
                0 <= j <= c.monitors.len(),
                monitor_index(c, connector@) < c.monitors.len(),
                pred == (|j: int| c.monitors[j].connector == connector@),
                forall|k: int| 0 <= k < j ==> !#[trigger] pred(k),
            decreases c.monitors.len() - j,
        {
            if str_eq(self.configs[t].monitors[j].connector.as_str(), connector) {
                proof {
                    lemma_first_index(c.monitors.len(), pred, j as int);
                }
                return j;
            }
            j = j + 1;
        }
        proof {
            lemma_first_index(c.monitors.len(), pred, j as int);
        }
        j
    }

    /// Sets the mode of the connector's monitor.
    pub fn set_mode(&mut self, connector: &str, mode_id: &str) -> (r: Result<(), Error>)
        ensures
            r is Ok <==> target_of(old(self)@, connector@) >= 0,
            r matches Err(e) ==> refused(old(self)@, final(self)@, connector@, e),
            r is Ok ==> ({
                let t = target_of(old(self)@, connector@);
                final(self)@ == old(self)@.update(t, with_mode(old(self)@[t], connector@, mode_id@))
            }),
    {
        let t = match self.target_index(connector) {
            Ok(t) => t,
            Err(e) => return Err(e),
        };
        proof {
            lemma_target(self@, connector@);
        }
        let j = self.monitor_position(t, connector);
        self.configs[t].monitors[j].mode_id = mode_id.to_owned();
        proof {
            let c = old(self)@[t as int];
            assert(monitor_views(self.configs@[t as int].monitors@) =~= c.monitors.update(
                j as int,
                ApplyMonitorView { mode_id: mode_id@, ..c.monitors[j as int] },
            ));
            assert(self@ =~= old(self)@.update(t as int, with_mode(c, connector@, mode_id@)));
        }
        Ok(())
    }

    /// Sets the scale of the connector's logical monitor.
    pub fn set_scale(&mut self, connector: &str, scale: u64) -> (r: Result<(), Error>)
        ensures
            r is Ok <==> target_of(old(self)@, connector@) >= 0,
            r matches Err(e) ==> refused(old(self)@, final(self)@, connector@, e),
            r is Ok ==> ({
                let t = target_of(old(self)@, connector@);
                final(self)@ == old(self)@.update(t, (ApplyConfigView { scale, ..old(self)@[t] }))
            }),
    {
        let t = match self.target_index(connector) {
            Ok(t) => t,
            Err(e) => return Err(e),
        };
        self.configs[t].scale = scale;
        assert(self@ =~= old(self)@.update(t as int, ApplyConfigView { scale, ..old(self)@[t as int] }));
        Ok(())
    }

    /// Sets the transform of the connector's logical monitor.
    pub fn set_transform(&mut self, connector: &str, transform: u32) -> (r: Result<(), Error>)
        ensures
            r is Ok <==> target_of(old(self)@, connector@) >= 0,
            r matches Err(e) ==> refused(old(self)@, final(self)@, connector@, e),
            r is Ok ==> ({
                let t = target_of(old(self)@, connector@);
                final(self)@ == old(self)@.update(t, (ApplyConfigView { transform, ..old(self)@[t] }))
            }),
    {
        let t = match self.target_index(connector) {
            Ok(t) => t,
            Err(e) => return Err(e),
        };
        self.configs[t].transform = transform;
        assert(self@ =~= old(self)@.update(t as int, ApplyConfigView { transform, ..old(self)@[t as int] }));
        Ok(())
    }

    /// Places the connector's logical monitor at `(x, y)`.
    pub fn set_position(&mut self, connector: &str, x: i32, y: i32) -> (r: Result<(), Error>)
        ensures
            r is Ok <==> target_of(old(self)@, connector@) >= 0,
            r matches Err(e) ==> refused(old(self)@, final(self)@, connector@, e),
            r is Ok ==> ({
                let t = target_of(old(self)@, connector@);
                final(self)@ == old(self)@.update(t, (ApplyConfigView { x_pos: x, y_pos: y, ..old(self)@[t] }))
            }),
    {
        let t = match self.target_index(connector) {
            Ok(t) => t,
            Err(e) => return Err(e),
        };
        self.configs[t].x_pos = x;
        self.configs[t].y_pos = y;
        assert(self@ =~= old(self)@.update(t as int, ApplyConfigView { x_pos: x, y_pos: y, ..old(self)@[t as int] }));
        Ok(())
    }

    /// Places the connector's logical monitor next to the reference's, given
    /// each planned logical monitor's size in the layout (`sizes[i]` for entry
    /// `i`, none where it is not known).
    pub fn place_relative(
        &mut self,
        connector: &str,
        reference: &str,
        placement: crate::cli::modify::RelativePlacement,
        sizes: &Vec<Option<(i32, i32)>>,
    ) -> (r: Result<(i32, i32), PlacementError>)
        requires
            sizes@.len() == old(self)@.len(),
        ensures
            ({
                let p = old(self)@;
                let t = target_of(p, connector@);
                let a = target_of(p, reference@);
                if t < 0 {
                    r == Err::<(i32, i32), PlacementError>(PlacementError::ConnectorNotPlanned) && final(self)@ == p
                } else if a < 0 {
                    r == Err::<(i32, i32), PlacementError>(PlacementError::ReferenceNotPlanned) && final(self)@ == p
                } else if sizes@[t] is None || sizes@[a] is None {
                    r == Err::<(i32, i32), PlacementError>(PlacementError::SizeUnknown) && final(self)@ == p
                } else {
                    let q = crate::cli::modify::relative_position_spec(
                        placement,
                        (p[a].x_pos, p[a].y_pos),
                        sizes@[a]->0,
                        sizes@[t]->0,
                    );
                    if i32::MIN <= q.0 <= i32::MAX && i32::MIN <= q.1 <= i32::MAX {
                        r matches Ok(xy) && xy.0 == q.0 && xy.1 == q.1 && final(self)@ == p.update(
                            t,
                            (ApplyConfigView { x_pos: xy.0, y_pos: xy.1, ..p[t] }),
                        )
                    } else {
                        r == Err::<(i32, i32), PlacementError>(PlacementError::OutOfRange) && final(self)@ == p
                    }
                }
            }),
    {
        let t = match self.target_index(connector) {
            Ok(t) => t,
            Err(_) => return Err(PlacementError::ConnectorNotPlanned),
        };
        let a = match self.target_index(reference) {
            Ok(a) => a,
            Err(_) => return Err(PlacementError::ReferenceNotPlanned),
        };
        let (size, anchor_size) = match (sizes[t], sizes[a]) {
            (Some(size), Some(anchor_size)) => (size, anchor_size),
            _ => return Err(PlacementError::SizeUnknown),
        };
        let anchor = (self.configs[a].x_pos, self.configs[a].y_pos);
        match crate::cli::modify::relative_position(placement, anchor, anchor_size, size) {
            Some((x, y)) => {
                self.configs[t].x_pos = x;
                self.configs[t].y_pos = y;
                assert(self@ =~= old(self)@.update(
                    t as int,
                    ApplyConfigView { x_pos: x, y_pos: y, ..old(self)@[t as int] },
                ));
                Ok((x, y))
            },
            None => Err(PlacementError::OutOfRange),
        }
    }

    /// The position of the connector's logical monitor.
    pub fn position(&self, connector: &str) -> (r: Result<(i32, i32), Error>)
        ensures
            r is Ok <==> target_of(self@, connector@) >= 0,
            r matches Ok(p) ==> p.0 == self@[target_of(self@, connector@)].x_pos && p.1 == self@[target_of(
                self@,
                connector@,
            )].y_pos,
            r matches Err(e) ==> (e matches Error::ConnectorNotFound(c) && c@ == connector@),
    {
        let t = match self.target_index(connector) {
            Ok(t) => t,
            Err(e) => return Err(e),
        };
        Ok((self.configs[t].x_pos, self.configs[t].y_pos))
    }

    /// Clears the primary flag of the connector's logical monitor.
    pub fn clear_primary(&mut self, connector: &str) -> (r: Result<(), Error>)
        ensures
            r is Ok <==> target_of(old(self)@, connector@) >= 0,
            r matches Err(e) ==> refused(old(self)@, final(self)@, connector@, e),
            r is Ok ==> ({
                let t = target_of(old(self)@, connector@);
                final(self)@ == old(self)@.update(t, (ApplyConfigView { primary: false, ..old(self)@[t] }))
            }),
    {
        let t = match self.target_index(connector) {
            Ok(t) => t,
            Err(e) => return Err(e),
        };
        self.configs[t].primary = false;
        assert(self@ =~= old(self)@.update(t as int, ApplyConfigView { primary: false, ..old(self)@[t as int] }));
        Ok(())
    }

    /// Makes the connector's logical monitor the only primary one.
    pub fn set_primary(&mut self, connector: &str) -> (r: Result<(), Error>)
        ensures
            r is Ok <==> target_of(old(self)@, connector@) >= 0,
            r matches Err(e) ==> refused(old(self)@, final(self)@, connector@, e),
            r is Ok ==> ({
                let t = target_of(old(self)@, connector@);
                &&& final(self)@.len() == old(self)@.len()
                &&& forall|i: int| 0 <= i < old(self)@.len() ==> #[trigger] final(self)@[i] == (ApplyConfigView {
                    primary: i == t,
                    ..old(self)@[i]
                })
            }),
    {
        let t = match self.target_index(connector) {
            Ok(t) => t,
            Err(e) => return Err(e),
        };
        let mut i: usize = 0;
        while i < self.configs.len()
            invariant
                0 <= i <= self.configs@.len(),
                t < self.configs@.len(),
                self.configs@.len() == old(self).configs@.len(),
                forall|k: int| 0 <= k < i ==> #[trigger] self.configs@[k]@ == (ApplyConfigView {
                    primary: false,
                    ..old(self).configs@[k]@
                }),
                forall|k: int| i <= k < self.configs@.len() ==> #[trigger] self.configs@[k]@ == old(self).configs@[k]@,
            decreases self.configs@.len() - i,
        {
            let ghost prev = self.configs@;
            self.configs[i].primary = false;
            assert(self.configs@[i as int]@ == (ApplyConfigView { primary: false, ..prev[i as int]@ }));
            assert(forall|k: int| 0 <= k < self.configs@.len() && k != i ==> self.configs@[k] == prev[k]);
            i = i + 1;
        }
        self.configs[t].primary = true;
        Ok(())
    }

    /// Sets the color mode of the connector's monitor; the color mode is the
    /// only typed monitor property there is, so it replaces the properties.
    pub fn set_color_mode(&mut self, connector: &str, color_mode: ColorMode) -> (r: Result<(), Error>)
        ensures
            r is Ok <==> target_of(old(self)@, connector@) >= 0,
            r matches Err(e) ==> refused(old(self)@, final(self)@, connector@, e),
            r is Ok ==> ({
                let t = target_of(old(self)@, connector@);
                final(self)@ == old(self)@.update(t, with_color_mode(old(self)@[t], connector@, color_mode))
            }),
    {
        let t = match self.target_index(connector) {
            Ok(t) => t,
            Err(e) => return Err(e),
        };
        proof {
            lemma_target(self@, connector@);
        }
        let j = self.monitor_position(t, connector);
        let mut properties: Vec<ApplyMonitorProperty> = Vec::new();
        properties.push(ApplyMonitorProperty::ColorMode(color_mode));
        self.configs[t].monitors[j].properties = properties;
        proof {
            let c = old(self)@[t as int];
            assert(monitor_views(self.configs@[t as int].monitors@) =~= c.monitors.update(
                j as int,
                ApplyMonitorView { properties: seq![ApplyMonitorProperty::ColorMode(color_mode)], ..c.monitors[j as int] },
            ));
            assert(self@ =~= old(self)@.update(t as int, with_color_mode(c, connector@, color_mode)));
        }
        Ok(())
    }

    /// Takes the connector out of its logical monitor, and drops that logical
    /// monitor where no monitor is left in it.
    pub fn remove_output(&mut self, connector: &str) -> (r: Result<(), Error>)
        ensures
            r is Ok <==> target_of(old(self)@, connector@) >= 0,
            r matches Err(e) ==> refused(old(self)@, final(self)@, connector@, e),
            r is Ok ==> final(self)@ == removal(old(self)@, connector@),
    {
        let t = match self.target_index(connector) {
            Ok(t) => t,
            Err(e) => return Err(e),
        };
        let ghost original = old(self)@[t as int].monitors;
        let mut kept: Vec<ApplyMonitor> = Vec::new();
        let mut j: usize = 0;
        while j < self.configs[t].monitors.len()
            invariant
                self.configs@ == old(self).configs@,
                t < self.configs@.len(),
                original == monitor_views(self.configs@[t as int].monitors@),
                0 <= j <= original.len(),
                monitor_views(kept@) == without_connector(original.take(j as int), connector@),
            decreases original.len() - j,
        {
            assert(original.take(j + 1).drop_last() =~= original.take(j as int));
            let ghost before = kept@;
            if !str_eq(self.configs[t].monitors[j].connector.as_str(), connector) {
                kept.push(self.configs[t].monitors[j].duplicate());
                assert(monitor_views(kept@) =~= monitor_views(before).push(original[j as int]));
            }
            j = j + 1;
        }
        assert(original.take(original.len() as int) =~= original);
        self.configs[t].monitors = kept;
        if self.configs[t].monitors.len() == 0 {
            self.configs.remove(t);
            assert(self@ =~= old(self)@.remove(t as int));
        } else {
            assert(self@ =~= old(self)@.update(
                t as int,
                ApplyConfigView { monitors: without_connector(original, connector@), ..old(self)@[t as int] },
            ));
        }
        Ok(())
    }

    /// Mirrors the connector onto the reference's logical monitor: takes it out
    /// of its own logical monitor as `remove_output` does, then adds it with
    /// `mode_id` to the logical monitor that holds the reference after that.
    pub fn clone_with(&mut self, connector: &str, reference: &str, mode_id: &str) -> (r: Result<(), Error>)
        ensures
            r is Ok <==> target_of(old(self)@, connector@) >= 0 && target_of(
                removal(old(self)@, connector@),
                reference@,
            ) >= 0,
            r is Err ==> final(self)@ == old(self)@,
            r matches Err(e) ==> (e matches Error::ConnectorNotFound(c) && (if target_of(old(self)@, connector@) < 0 {
                c@ == connector@
            } else {
                c@ == reference@
            })),
            r is Ok ==> ({
                let after = removal(old(self)@, connector@);
                final(self)@ == mirrored(after, target_of(after, reference@), connector@, mode_id@)
            }),
    {
        if let Err(e) = self.target_index(connector) {
            return Err(e);
        }
        let saved = duplicate_configs(&self.configs);
        let removed = self.remove_output(connector);
        let t = match self.target_index(reference) {
            Ok(t) => t,
            Err(e) => {
                self.configs = saved;
                return Err(e);
            },
        };
        let added = ApplyMonitor { connector: connector.to_owned(), mode_id: mode_id.to_owned(), properties: Vec::new() };
        self.configs[t].monitors.push(added);
        proof {
            let after = removal(old(self)@, connector@);
            assert(monitor_views(self.configs@[t as int].monitors@) =~= after[t as int].monitors.push(
                ApplyMonitorView { connector: connector@, mode_id: mode_id@, properties: Seq::empty() },
            ));
            assert(self@ =~= mirrored(after, t as int, connector@, mode_id@));
        }
        Ok(())
    }

    /// The planned layout as it stands.
    pub fn configs(&self) -> (r: &Vec<ApplyConfig>)
        ensures
            config_views(r@) == self@,
    {
        &self.configs
    }

    /// The planned layout, one entry per logical monitor.
    pub fn into_configs(self) -> (r: Vec<ApplyConfig>)
        ensures
            config_views(r@) == self@,
    {
        self.configs
    }
}

} // verus!

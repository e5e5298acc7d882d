//! The decisions of `modify` around the planner: which changes a request
//! makes to the layout, in what order they are planned, and when there is
//! nothing to do.

use vstd::prelude::*;

use crate::cli::modify::planner::{
    mirrored, removal, target_of, with_color_mode, with_mode, Error, MonitorPlanner, PlacementError,
};
use crate::cli::modify::{
    backlight_connector, backlight_covers, has_luminance_entry, luminance_covers, luminance_in_range,
    luminance_mode_result, per_output_spec, resolve_luminance_color_mode, validate_backlight_request,
    validate_luminance_request, ActionOptions, Error as ModifyError, Position, RelativePlacement,
};
use crate::display_config::PhysicalMonitor;
use crate::display_config::proxied_methods::{ApplyConfigView, ColorMode, NativeDisplayState, PowerSaveMode};

verus! {

/// The layout changes of a `modify` request, resolved, for one connector.
#[derive(Debug)]
pub struct LayoutChanges {
    pub off: bool,
    /// The output to mirror and the id of the mode to mirror it with.
    pub clone: Option<(String, String)>,
    pub transform: Option<u32>,
    pub mode_id: Option<String>,
    /// The bit pattern of the `f64` scale.
    pub scale: Option<u64>,
    pub color_mode: Option<ColorMode>,
    pub position: Option<Position>,
    /// The output to place this one next to, and where; planned once the
    /// sizes of the planned logical monitors are known (`plan_relative_placement`).
    pub relative: Option<(String, RelativePlacement)>,
    pub primary: bool,
    pub noprimary: bool,
}

/// Whether the primary flag is planned with the other changes: it comes last,
/// so a relative placement, planned later, takes it along.
pub open spec fn primary_with_changes(changes: LayoutChanges) -> bool {
    changes.relative is None
}

/// The plan after one change to the connector's logical monitor, or the
/// connector that could not be found.
pub type Step = Result<Seq<ApplyConfigView>, Seq<char>>;

pub open spec fn update_target(p: Seq<ApplyConfigView>, c: Seq<char>, f: ApplyConfigView) -> Step {
    if target_of(p, c) < 0 {
        Err(c)
    } else {
        Ok(p.update(target_of(p, c), f))
    }
}

pub open spec fn after_off(r: Step, c: Seq<char>) -> Step {
    match r {
        Err(e) => Err(e),
        Ok(p) => if target_of(p, c) < 0 {
            Err(c)
        } else {
            Ok(removal(p, c))
        },
    }
}

pub open spec fn after_clone(r: Step, c: Seq<char>, reference: Seq<char>, mode: Seq<char>) -> Step {
    match r {
        Err(e) => Err(e),
        Ok(p) => if target_of(p, c) < 0 {
            Err(c)
        } else {
            let after = removal(p, c);
            if target_of(after, reference) < 0 {
                Err(reference)
            } else {
                Ok(mirrored(after, target_of(after, reference), c, mode))
            }
        },
    }
}

pub open spec fn after_transform(r: Step, c: Seq<char>, transform: u32) -> Step {
    match r {
        Err(e) => Err(e),
        Ok(p) => update_target(p, c, ApplyConfigView { transform, ..p[target_of(p, c)] }),
    }
}

pub open spec fn after_mode(r: Step, c: Seq<char>, mode: Seq<char>) -> Step {
    match r {
        Err(e) => Err(e),
        Ok(p) => update_target(p, c, with_mode(p[target_of(p, c)], c, mode)),
    }
}

pub open spec fn after_scale(r: Step, c: Seq<char>, scale: u64) -> Step {
    match r {
        Err(e) => Err(e),
        Ok(p) => update_target(p, c, ApplyConfigView { scale, ..p[target_of(p, c)] }),
    }
}

pub open spec fn after_color_mode(r: Step, c: Seq<char>, color_mode: ColorMode) -> Step {
    match r {
        Err(e) => Err(e),
        Ok(p) => update_target(p, c, with_color_mode(p[target_of(p, c)], c, color_mode)),
    }
}

pub open spec fn after_position(r: Step, c: Seq<char>, position: Position) -> Step {
    match r {
        Err(e) => Err(e),
        Ok(p) => update_target(p, c, ApplyConfigView { x_pos: position.x, y_pos: position.y, ..p[target_of(p, c)] }),
    }
}

/// Only the connector's logical monitor primary.
pub open spec fn only_primary(p: Seq<ApplyConfigView>, t: int) -> Seq<ApplyConfigView> {
    Seq::new(p.len(), |i: int| ApplyConfigView { primary: i == t, ..p[i] })
}

pub open spec fn after_primary(r: Step, c: Seq<char>) -> Step {
    match r {
        Err(e) => Err(e),
        Ok(p) => if target_of(p, c) < 0 {
            Err(c)
        } else {
            Ok(only_primary(p, target_of(p, c)))
        },
    }
}

pub open spec fn after_noprimary(r: Step, c: Seq<char>) -> Step {
    match r {
        Err(e) => Err(e),
        Ok(p) => update_target(p, c, ApplyConfigView { primary: false, ..p[target_of(p, c)] }),
    }
}

/// The plan after the request's layout changes, in the order `modify` makes
/// them: disabling, mirroring, transform, mode, scale, color mode, position,
/// then the primary flag.
pub open spec fn changes_spec(p: Seq<ApplyConfigView>, c: Seq<char>, changes: LayoutChanges) -> Step {
    let r0: Step = Ok(p);
    let r1 = if changes.off {
        after_off(r0, c)
    } else {
        r0
    };
    let r2 = match changes.clone {
        Some((reference, mode)) => after_clone(r1, c, reference@, mode@),
        None => r1,
    };
    let r3 = match changes.transform {
        Some(t) => after_transform(r2, c, t),
        None => r2,
    };
    let r4 = match changes.mode_id {
        Some(m) => after_mode(r3, c, m@),
        None => r3,
    };
    let r5 = match changes.scale {
        Some(s) => after_scale(r4, c, s),
        None => r4,
    };
    let r6 = match changes.color_mode {
        Some(m) => after_color_mode(r5, c, m),
        None => r5,
    };
    let r7 = match changes.position {
        Some(pos) => after_position(r6, c, pos),
        None => r6,
    };
    let r8 = if changes.primary && primary_with_changes(changes) {
        after_primary(r7, c)
    } else {
        r7
    };
    if changes.noprimary && primary_with_changes(changes) {
        after_noprimary(r8, c)
    } else {
        r8
    }
}

/// Whether `r` is what the planner reports for `expected`.
pub open spec fn step_matches(r: Result<(), Error>, expected: Step, after: Seq<ApplyConfigView>) -> bool {
    match expected {
        Ok(p) => r is Ok && after == p,
        Err(c) => r matches Err(Error::ConnectorNotFound(d)) && d@ == c,
    }
}

/// Whether a planner call that was to give `expected` did.
pub open spec fn call_matches(r: Result<(), Error>, expected: Step, after: Seq<ApplyConfigView>) -> bool {
    step_matches(r, expected, after)
}

fn plan_off(planner: &mut MonitorPlanner, connector: &str) -> (r: Result<(), Error>)
    ensures
        call_matches(r, after_off(Ok(old(planner)@), connector@), final(planner)@),
{
    planner.remove_output(connector)
}

fn plan_clone(planner: &mut MonitorPlanner, connector: &str, reference: &str, mode: &str) -> (r: Result<(), Error>)
    ensures
        call_matches(r, after_clone(Ok(old(planner)@), connector@, reference@, mode@), final(planner)@),
{
    planner.clone_with(connector, reference, mode)
}

fn plan_transform(planner: &mut MonitorPlanner, connector: &str, t: u32) -> (r: Result<(), Error>)
    ensures
        call_matches(r, after_transform(Ok(old(planner)@), connector@, t), final(planner)@),
{
    planner.set_transform(connector, t)
}

fn plan_mode(planner: &mut MonitorPlanner, connector: &str, mode: &str) -> (r: Result<(), Error>)
    ensures
        call_matches(r, after_mode(Ok(old(planner)@), connector@, mode@), final(planner)@),
{
    planner.set_mode(connector, mode)
}

fn plan_scale(planner: &mut MonitorPlanner, connector: &str, scale: u64) -> (r: Result<(), Error>)
    ensures
        call_matches(r, after_scale(Ok(old(planner)@), connector@, scale), final(planner)@),
{
    planner.set_scale(connector, scale)
}

fn plan_color_mode(planner: &mut MonitorPlanner, connector: &str, m: ColorMode) -> (r: Result<(), Error>)
    ensures
        call_matches(r, after_color_mode(Ok(old(planner)@), connector@, m), final(planner)@),
{
    planner.set_color_mode(connector, m)
}

fn plan_position(planner: &mut MonitorPlanner, connector: &str, pos: Position) -> (r: Result<(), Error>)
    ensures
        call_matches(r, after_position(Ok(old(planner)@), connector@, pos), final(planner)@),
{
    planner.set_position(connector, pos.x, pos.y)
}

fn plan_primary(planner: &mut MonitorPlanner, connector: &str) -> (r: Result<(), Error>)
    ensures
        call_matches(r, after_primary(Ok(old(planner)@), connector@), final(planner)@),
{
    let ghost before = planner@;
    let r = planner.set_primary(connector);
    proof {
        if r is Ok {
            assert(planner@ =~= only_primary(before, target_of(before, connector@)));
        }
    }
    r
}

fn plan_noprimary(planner: &mut MonitorPlanner, connector: &str) -> (r: Result<(), Error>)
    ensures
        call_matches(r, after_noprimary(Ok(old(planner)@), connector@), final(planner)@),
{
    planner.clear_primary(connector)
}

/// The plan after the first `k` kinds of change of the request (in the order
/// of `changes_spec`).
pub open spec fn changes_upto(p: Seq<ApplyConfigView>, c: Seq<char>, changes: LayoutChanges, k: int) -> Step
    decreases k,
{
    if k <= 0 {
        Ok(p)
    } else {
        let r = changes_upto(p, c, changes, k - 1);
        if k == 1 {
            if changes.off {
                after_off(r, c)
            } else {
                r
            }
        } else if k == 2 {
            match changes.clone {
                Some((reference, mode)) => after_clone(r, c, reference@, mode@),
                None => r,
            }
        } else if k == 3 {
            match changes.transform {
                Some(t) => after_transform(r, c, t),
                None => r,
            }
        } else if k == 4 {
            match changes.mode_id {
                Some(m) => after_mode(r, c, m@),
                None => r,
            }
        } else if k == 5 {
            match changes.scale {
                Some(s) => after_scale(r, c, s),
                None => r,
            }
        } else if k == 6 {
            match changes.color_mode {
                Some(m) => after_color_mode(r, c, m),
                None => r,
            }
        } else if k == 7 {
            match changes.position {
                Some(pos) => after_position(r, c, pos),
                None => r,
            }
        } else if k == 8 {
            if changes.primary && primary_with_changes(changes) {
                after_primary(r, c)
            } else {
                r
            }
        } else {
            if changes.noprimary && primary_with_changes(changes) {
                after_noprimary(r, c)
            } else {
                r
            }
        }
    }
}

proof fn lemma_changes_upto_all(p: Seq<ApplyConfigView>, c: Seq<char>, changes: LayoutChanges)
    ensures
        changes_upto(p, c, changes, 9) == changes_spec(p, c, changes),
{
    reveal_with_fuel(changes_upto, 10);
}

proof fn lemma_failure_sticks(p: Seq<ApplyConfigView>, c: Seq<char>, changes: LayoutChanges, k: int, j: int)
    requires
        0 <= k <= j,
        changes_upto(p, c, changes, k) is Err,
    ensures
        changes_upto(p, c, changes, j) == changes_upto(p, c, changes, k),
    decreases j - k,
{
    if j > k {
        lemma_failure_sticks(p, c, changes, k, j - 1);
    }
}

/// Plans one kind of change of the request: the `k`-th of `changes_upto`.
fn plan_step(planner: &mut MonitorPlanner, connector: &str, changes: &LayoutChanges, k: u32) -> (r: Result<(), Error>)
    requires
        1 <= k <= 9,
    ensures
        ({
            let c = connector@;
            let before: Step = Ok(old(planner)@);
            let expected = if k == 1 {
                if changes.off {
                    after_off(before, c)
                } else {
                    before
                }
            } else if k == 2 {
                match changes.clone {
                    Some((reference, mode)) => after_clone(before, c, reference@, mode@),
                    None => before,
                }
            } else if k == 3 {
                match changes.transform {
                    Some(t) => after_transform(before, c, t),
                    None => before,
                }
            } else if k == 4 {
                match changes.mode_id {
                    Some(m) => after_mode(before, c, m@),
                    None => before,
                }
            } else if k == 5 {
                match changes.scale {
                    Some(s) => after_scale(before, c, s),
                    None => before,
                }
            } else if k == 6 {
                match changes.color_mode {
                    Some(m) => after_color_mode(before, c, m),
                    None => before,
                }
            } else if k == 7 {
                match changes.position {
                    Some(pos) => after_position(before, c, pos),
                    None => before,
                }
            } else if k == 8 {
                if changes.primary && primary_with_changes(*changes) {
                    after_primary(before, c)
                } else {
                    before
                }
            } else {
                if changes.noprimary && primary_with_changes(*changes) {
                    after_noprimary(before, c)
                } else {
                    before
                }
            };
            call_matches(r, expected, final(planner)@)
        }),
{
    if k == 1 {
        if changes.off {
            return plan_off(planner, connector);
        }
    } else if k == 2 {
        if let Some((reference, mode)) = &changes.clone {
            return plan_clone(planner, connector, reference.as_str(), mode.as_str());
        }
    } else if k == 3 {
        if let Some(t) = changes.transform {
            return plan_transform(planner, connector, t);
        }
    } else if k == 4 {
        if let Some(m) = &changes.mode_id {
            return plan_mode(planner, connector, m.as_str());
        }
    } else if k == 5 {
        if let Some(s) = changes.scale {
            return plan_scale(planner, connector, s);
        }
    } else if k == 6 {
        if let Some(m) = changes.color_mode {
            return plan_color_mode(planner, connector, m);
        }
    } else if k == 7 {
        if let Some(pos) = changes.position {
            return plan_position(planner, connector, pos);
        }
    } else if k == 8 {
        if changes.primary && changes.relative.is_none() {
            return plan_primary(planner, connector);
        }
    } else {
        if changes.noprimary && changes.relative.is_none() {
            return plan_noprimary(planner, connector);
        }
    }
    Ok(())
}

/// Plans the request's layout changes on the connector's logical monitor.
pub fn plan_layout_changes(planner: &mut MonitorPlanner, connector: &str, changes: &LayoutChanges) -> (r: Result<
    (),
    Error,
>)
    ensures
        step_matches(r, changes_spec(old(planner)@, connector@, *changes), final(planner)@),
{
    let ghost start = planner@;
    let mut k: u32 = 1;
    while k <= 9
        invariant
            1 <= k <= 10,
            start == old(planner)@,
            changes_upto(start, connector@, *changes, k - 1) == Ok::<Seq<ApplyConfigView>, Seq<char>>(planner@),
        decreases 10 - k,
    {
        let ghost before = planner@;
        let r = plan_step(planner, connector, changes, k);
        match r {
            Ok(()) => {},
            Err(e) => {
                proof {
                    lemma_failure_sticks(start, connector@, *changes, k as int, 9);
                    lemma_changes_upto_all(start, connector@, *changes);
                }
                return Err(e);
            },
        }
        k = k + 1;
    }
    proof {
        lemma_changes_upto_all(start, connector@, *changes);
    }
    Ok(())
}

/// Why the changes planned after a relative placement could not be planned.
#[derive(Debug)]
pub enum LayoutError {
    Placement(PlacementError),
    Planner(Error),
}

/// The plan and the position after placing the connector's logical monitor
/// next to the reference's, given each planned logical monitor's size.
pub open spec fn placement_spec(
    p: Seq<ApplyConfigView>,
    c: Seq<char>,
    reference: Seq<char>,
    placement: RelativePlacement,
    sizes: Seq<Option<(i32, i32)>>,
) -> Result<(Seq<ApplyConfigView>, (i32, i32)), PlacementError> {
    let t = target_of(p, c);
    let a = target_of(p, reference);
    if t < 0 {
        Err(PlacementError::ConnectorNotPlanned)
    } else if a < 0 {
        Err(PlacementError::ReferenceNotPlanned)
    } else if sizes[t] is None || sizes[a] is None {
        Err(PlacementError::SizeUnknown)
    } else {
        let q = crate::cli::modify::relative_position_spec(
            placement,
            (p[a].x_pos, p[a].y_pos),
            sizes[a]->0,
            sizes[t]->0,
        );
        if i32::MIN <= q.0 <= i32::MAX && i32::MIN <= q.1 <= i32::MAX {
            let xy = (q.0 as i32, q.1 as i32);
            Ok((p.update(t, ApplyConfigView { x_pos: xy.0, y_pos: xy.1, ..p[t] }), xy))
        } else {
            Err(PlacementError::OutOfRange)
        }
    }
}

/// The primary flag's changes, planned last.
pub open spec fn primary_spec(r: Step, c: Seq<char>, primary: bool, noprimary: bool) -> Step {
    let r1 = if primary {
        after_primary(r, c)
    } else {
        r
    };
    if noprimary {
        after_noprimary(r1, c)
    } else {
        r1
    }
}

/// Plans what `plan_layout_changes` leaves to be planned once the sizes of the
/// planned logical monitors are known (`sizes[i]` for entry `i`, none where
/// it is not known): the relative placement, then the primary flag. Without
/// a relative placement there is nothing left, and the position is `None`.
pub fn plan_relative_placement(
    planner: &mut MonitorPlanner,
    connector: &str,
    changes: &LayoutChanges,
    sizes: &Vec<Option<(i32, i32)>>,
) -> (r: Result<Option<(i32, i32)>, LayoutError>)
    requires
        sizes@.len() == old(planner)@.len(),
    ensures
        match changes.relative {
            None => r matches Ok(None) && final(planner)@ == old(planner)@,
            Some((reference, placement)) => match placement_spec(
                old(planner)@,
                connector@,
                reference@,
                placement,
                sizes@,
            ) {
                Err(e) => r matches Err(LayoutError::Placement(f)) && f == e && final(planner)@ == old(planner)@,
                Ok((q, xy)) => match primary_spec(Ok(q), connector@, changes.primary, changes.noprimary) {
                    Ok(after) => r matches Ok(Some(pos)) && pos == xy && final(planner)@ == after,
                    Err(c) => r matches Err(LayoutError::Planner(Error::ConnectorNotFound(d))) && d@ == c,
                },
            },
        },
{
    let (reference, placement) = match &changes.relative {
        Some((reference, placement)) => (reference, *placement),
        None => return Ok(None),
    };
    let xy = match planner.place_relative(connector, reference.as_str(), placement, sizes) {
        Ok(xy) => xy,
        Err(e) => return Err(LayoutError::Placement(e)),
    };
    if changes.primary {
        match plan_primary(planner, connector) {
            Ok(()) => {},
            Err(e) => return Err(LayoutError::Planner(e)),
        }
    }
    if changes.noprimary {
        match plan_noprimary(planner, connector) {
            Ok(()) => {},
            Err(e) => return Err(LayoutError::Planner(e)),
        }
    }
    Ok(Some(xy))
}

// ---------------------------------------------------------------------------
// What a request asks for
// ---------------------------------------------------------------------------

/// Whether the request needs Mutter's native display state.
pub open spec fn native_controls_spec(layout_mode_changes: bool, a: &ActionOptions) -> bool {
    layout_mode_changes || a.power_save is Some || a.backlight is Some || a.luminance is Some || a.reset_luminance
}

pub fn native_controls_requested(layout_mode_changes: bool, actions: &ActionOptions) -> (r: bool)
    ensures
        r == native_controls_spec(layout_mode_changes, actions),
{
    layout_mode_changes || actions.power_save.is_some() || actions.backlight.is_some()
        || actions.luminance.is_some() || actions.reset_luminance
}

/// Whether the request needs Mutter's resources: for software color and for mirroring.
pub fn resources_requested(actions: &ActionOptions) -> (r: bool)
    ensures
        r == (actions.brightness is Some || actions.gamma is Some || actions.same_as is Some),
{
    actions.brightness.is_some() || actions.gamma.is_some() || actions.same_as.is_some()
}

/// What a resolved request comes to, as far as `modify` decides whether to act.
#[derive(Debug, Clone, Copy, PartialEq, Eq, Structural)]
pub struct RequestSummary {
    pub needs_connector: bool,
    pub output_enabled: bool,
    pub off: bool,
    pub clone: bool,
    pub transform: bool,
    pub layout_mode: bool,
    pub position: bool,
    pub relative_placement: bool,
    pub mode: bool,
    pub primary: bool,
    pub noprimary: bool,
    pub scale: bool,
    pub color_mode: bool,
    pub brightness: bool,
    pub gamma: bool,
    pub power_save: bool,
    pub backlight: bool,
    pub luminance: bool,
    pub reset_luminance: bool,
}

/// Whether the request changes the layout.
pub open spec fn layout_changes_spec(s: RequestSummary) -> bool {
    s.off || s.clone || s.transform || s.layout_mode || s.position || s.relative_placement || s.mode || s.primary
        || s.noprimary || s.scale || s.color_mode
}

/// How `modify` goes on with a resolved request.
#[derive(Debug, Clone, Copy, PartialEq, Eq, Structural)]
pub enum ModifyOutcome {
    /// The output is off and the request would change its layout.
    OutputDisabled,
    /// There is nothing to change.
    NoChanges,
    /// Go on; `layout` tells whether the layout is planned and applied.
    Proceed { layout: bool },
}

/// Whether the request asks for software color, backlight or luminance on its output.
pub open spec fn other_output_controls(s: RequestSummary) -> bool {
    s.brightness || s.gamma || s.backlight || s.luminance || s.reset_luminance
}

/// The request would change the layout of its output, which is off, without
/// turning it off or mirroring it.
pub open spec fn changes_disabled_output(s: RequestSummary) -> bool {
    &&& layout_changes_spec(s)
    &&& s.needs_connector
    &&& !s.output_enabled
    &&& !s.off
    &&& !s.clone
}

/// The request turns off an output that is already off, and asks nothing else
/// of it that it could take.
pub open spec fn turns_off_disabled_output(s: RequestSummary) -> bool {
    &&& s.off
    &&& s.needs_connector
    &&& !s.output_enabled
    &&& !other_output_controls(s)
}

/// The request changes neither the layout nor any other control.
pub open spec fn changes_nothing(s: RequestSummary) -> bool {
    !layout_changes_spec(s) && !other_output_controls(s) && !s.power_save
}

/// Where a resolved request leads, in this order: refused where it changes
/// the layout of an output that is off; nothing to do where it turns off an
/// output that is off, or changes nothing; else on, with or without a layout
/// change.
pub open spec fn outcome_spec(s: RequestSummary) -> ModifyOutcome {
    if changes_disabled_output(s) {
        ModifyOutcome::OutputDisabled
    } else if turns_off_disabled_output(s) || changes_nothing(s) {
        ModifyOutcome::NoChanges
    } else {
        ModifyOutcome::Proceed { layout: layout_changes_spec(s) }
    }
}

pub fn modify_outcome(s: RequestSummary) -> (r: ModifyOutcome)
    ensures
        r == outcome_spec(s),
{
    let layout = s.off || s.clone || s.transform || s.layout_mode || s.position || s.relative_placement || s.mode
        || s.primary || s.noprimary || s.scale || s.color_mode;
    let other_output_controls = s.brightness || s.gamma || s.backlight || s.luminance || s.reset_luminance;
    if layout && s.needs_connector && !s.off && !s.clone && !s.output_enabled {
        ModifyOutcome::OutputDisabled
    } else if s.off && s.needs_connector && !s.output_enabled && !other_output_controls {
        ModifyOutcome::NoChanges
    } else if !layout && !other_output_controls && !s.power_save {
        ModifyOutcome::NoChanges
    } else {
        ModifyOutcome::Proceed { layout }
    }
}

/// Whether the output's mode, scale and color mode are resolved: not where it
/// is turned off or mirrored.
pub fn resolves_output_settings(actions: &ActionOptions, clone: bool) -> (r: bool)
    ensures
        r == (!actions.off && !clone),
{
    !actions.off && !clone
}

/// Whether mode, scale and color options would go to an output that is off.
pub fn output_settings_blocked(actions: &ActionOptions, clone: bool, output_enabled: bool) -> (r: bool)
    ensures
        r == (!actions.off && !clone && per_output_spec(actions) && !output_enabled),
{
    !actions.off && !clone && crate::cli::modify::per_output_actions_requested(actions) && !output_enabled
}

/// Whether Mutter can set the power save mode: it reports one it knows.
pub fn power_save_supported(native_state: Option<&NativeDisplayState>) -> (r: bool)
    ensures
        r == (native_state matches Some(s) && s.power_save_mode != PowerSaveMode::Unknown),
{
    match native_state {
        Some(s) => s.power_save_mode != PowerSaveMode::Unknown,
        None => false,
    }
}

// ---------------------------------------------------------------------------
// Native controls of one output
// ---------------------------------------------------------------------------

/// Whether Mutter offers backlight control on the connector.
pub open spec fn backlight_offered(native_state: &NativeDisplayState, connector: Seq<char>) -> bool {
    match native_state.backlight {
        Some(b) => backlight_covers(b, connector),
        None => false,
    }
}

/// The backlight to set: the requested percentage, refused where it is out of
/// range or Mutter offers no backlight on the connector; none where no
/// backlight is asked for, or there is no connector or native state to set it on.
pub fn resolve_backlight(
    value: Option<i32>,
    connector: Option<&str>,
    native_state: Option<&NativeDisplayState>,
) -> (r: Result<Option<i32>, ModifyError>)
    ensures
        match (value, connector, native_state) {
            (Some(v), Some(c), Some(n)) => if !(0 <= v <= 100) {
                r matches Err(ModifyError::InvalidBacklight(x)) && x == v
            } else if !backlight_offered(n, c@) {
                r matches Err(ModifyError::BacklightUnsupported { connector: x }) && x@ == c@
            } else {
                r == Ok::<Option<i32>, ModifyError>(Some(v))
            },
            _ => r == Ok::<Option<i32>, ModifyError>(None),
        },
{
    match (value, connector, native_state) {
        (Some(v), Some(c), Some(n)) => {
            match validate_backlight_request(v) {
                Ok(()) => {},
                Err(e) => return Err(e),
            }
            if backlight_connector(n, c).is_none() {
                return Err(ModifyError::BacklightUnsupported { connector: c.to_owned() });
            }
            Ok(Some(v))
        },
        _ => Ok(None),
    }
}

/// The color mode whose luminance `--luminance` or `--reset-luminance` sets:
/// refused where the luminance is out of range or Mutter keeps no luminance
/// for the connector, else as `resolve_luminance_color_mode` finds it; none
/// where neither is asked for, or there is no connector, monitor or native
/// state to set it on.
pub fn resolve_luminance(
    luminance: Option<u64>,
    reset: bool,
    connector: Option<&str>,
    physical_monitor: Option<&PhysicalMonitor>,
    native_state: Option<&NativeDisplayState>,
    requested: Option<ColorMode>,
) -> (r: Result<Option<ColorMode>, ModifyError>)
    ensures
        match (connector, physical_monitor, native_state) {
            (Some(c), Some(pm), Some(n)) => if luminance is None && !reset {
                r == Ok::<Option<ColorMode>, ModifyError>(None)
            } else if luminance matches Some(v) && !luminance_in_range(v) {
                r matches Err(ModifyError::InvalidLuminance(x)) && luminance == Some(x)
            } else if !luminance_covers(n, c@) {
                r matches Err(ModifyError::LuminanceUnsupported { connector: x }) && x@ == c@
            } else {
                match r {
                    Ok(Some(m)) => luminance_mode_result(Ok(m), c@, pm, requested),
                    Ok(None) => false,
                    Err(e) => luminance_mode_result(Err(e), c@, pm, requested),
                }
            },
            _ => r == Ok::<Option<ColorMode>, ModifyError>(None),
        },
{
    match (connector, physical_monitor, native_state) {
        (Some(c), Some(pm), Some(n)) => {
            if luminance.is_none() && !reset {
                return Ok(None);
            }
            if let Some(v) = luminance {
                match validate_luminance_request(v) {
                    Ok(()) => {},
                    Err(e) => return Err(e),
                }
            }
            if !has_luminance_entry(n, c) {
                return Err(ModifyError::LuminanceUnsupported { connector: c.to_owned() });
            }
            match resolve_luminance_color_mode(c, pm, requested) {
                Ok(m) => Ok(Some(m)),
                Err(e) => Err(e),
            }
        },
        _ => Ok(None),
    }
}

// ---------------------------------------------------------------------------
// What is sent to Mutter
// ---------------------------------------------------------------------------

/// A step of a `modify` request after its layout is planned.
#[derive(Debug, Clone, Copy, PartialEq, Eq, Structural)]
pub enum ModifyStep {
    /// Send the planned layout.
    ApplyLayout,
    /// Stop: Mutter reports no power-save mode it knows.
    RefusePowerSave,
    SetPowerSave(PowerSaveMode),
    SetBacklight { serial: u32, value: i32 },
    /// The luminance is an `f64` bit pattern.
    SetLuminance { color_mode: ColorMode, luminance: u64 },
    ResetLuminance { color_mode: ColorMode },
    /// Apply the software brightness and gamma.
    SoftwareColor,
}

/// A step, and whether it changes anything: a dry run announces every step
/// and changes nothing.
#[derive(Debug, Clone, Copy, PartialEq, Eq, Structural)]
pub struct PlannedStep {
    pub step: ModifyStep,
    pub send: bool,
}

/// What a resolved request goes on to do, after planning its layout.
#[derive(Debug, Clone, Copy)]
pub struct StepRequest {
    pub dry_run: bool,
    pub layout: bool,
    pub power_save: Option<PowerSaveMode>,
    pub power_save_supported: bool,
    /// The backlight serial and the value to set.
    pub backlight: Option<(u32, i32)>,
    /// The color mode whose luminance is set or reset.
    pub luminance_color_mode: Option<ColorMode>,
    pub luminance: Option<u64>,
    pub reset_luminance: bool,
    pub software_color: bool,
}

pub open spec fn steps_of(r: StepRequest, steps: Seq<ModifyStep>) -> Seq<PlannedStep> {
    steps.map_values(|s: ModifyStep| PlannedStep { step: s, send: !r.dry_run })
}

pub open spec fn opt_step(present: bool, step: ModifyStep) -> Seq<ModifyStep> {
    if present {
        seq![step]
    } else {
        Seq::empty()
    }
}

pub open spec fn power_steps(r: StepRequest) -> Seq<ModifyStep> {
    match r.power_save {
        Some(m) => seq![ModifyStep::SetPowerSave(m)],
        None => Seq::empty(),
    }
}

pub open spec fn backlight_steps(r: StepRequest) -> Seq<ModifyStep> {
    match r.backlight {
        Some((serial, value)) => seq![ModifyStep::SetBacklight { serial, value }],
        None => Seq::empty(),
    }
}

pub open spec fn luminance_steps(r: StepRequest) -> Seq<ModifyStep> {
    match r.luminance_color_mode {
        Some(m) => opt_step(r.luminance is Some, ModifyStep::SetLuminance { color_mode: m, luminance: r.luminance->0 })
            + opt_step(r.reset_luminance, ModifyStep::ResetLuminance { color_mode: m }),
        None => Seq::empty(),
    }
}

/// The steps in order: the layout, the power-save mode (stopping there, where
/// it is to be sent and Mutter knows no power-save mode), the backlight, the
/// luminance set and reset, and the software color.
pub open spec fn step_list(r: StepRequest) -> Seq<ModifyStep> {
    let layout = opt_step(r.layout, ModifyStep::ApplyLayout);
    if r.power_save is Some && !r.dry_run && !r.power_save_supported {
        layout.push(ModifyStep::RefusePowerSave)
    } else {
        layout + power_steps(r) + backlight_steps(r) + luminance_steps(r) + opt_step(
            r.software_color,
            ModifyStep::SoftwareColor,
        )
    }
}

fn opt_vec(present: bool, step: ModifyStep) -> (v: Vec<ModifyStep>)
    ensures
        v@ == opt_step(present, step),
{
    let mut v: Vec<ModifyStep> = Vec::new();
    if present {
        v.push(step);
    }
    assert(v@ =~= opt_step(present, step));
    v
}

fn append_steps(v: &mut Vec<ModifyStep>, w: Vec<ModifyStep>)
    ensures
        final(v)@ == old(v)@ + w@,
{
    let mut i: usize = 0;
    let ghost start = v@;
    while i < w.len()
        invariant
            0 <= i <= w@.len(),
            v@ == start + w@.take(i as int),
        decreases w@.len() - i,
    {
        v.push(w[i]);
        assert(w@.take(i + 1) =~= w@.take(i as int).push(w@[i as int]));
        assert(start + w@.take(i + 1) =~= (start + w@.take(i as int)).push(w@[i as int]));
        i = i + 1;
    }
    assert(w@.take(w@.len() as int) =~= w@);
}

fn step_list_of(r: StepRequest) -> (v: Vec<ModifyStep>)
    ensures
        v@ == step_list(r),
{
    let mut v = opt_vec(r.layout, ModifyStep::ApplyLayout);
    if r.power_save.is_some() && !r.dry_run && !r.power_save_supported {
        v.push(ModifyStep::RefusePowerSave);
        return v;
    }
    let power = match r.power_save {
        Some(m) => vec![ModifyStep::SetPowerSave(m)],
        None => Vec::new(),
    };
    assert(power@ =~= power_steps(r));
    append_steps(&mut v, power);
    let backlight = match r.backlight {
        Some((serial, value)) => vec![ModifyStep::SetBacklight { serial, value }],
        None => Vec::new(),
    };
    assert(backlight@ =~= backlight_steps(r));
    append_steps(&mut v, backlight);
    let luminance = match r.luminance_color_mode {
        Some(m) => {
            let mut l = match r.luminance {
                Some(value) => vec![ModifyStep::SetLuminance { color_mode: m, luminance: value }],
                None => Vec::new(),
            };
            assert(l@ =~= opt_step(r.luminance is Some, ModifyStep::SetLuminance { color_mode: m, luminance: r.luminance->0 }));
            append_steps(&mut l, opt_vec(r.reset_luminance, ModifyStep::ResetLuminance { color_mode: m }));
            l
        },
        None => Vec::new(),
    };
    assert(luminance@ =~= luminance_steps(r));
    append_steps(&mut v, luminance);
    append_steps(&mut v, opt_vec(r.software_color, ModifyStep::SoftwareColor));
    v
}

/// The steps of a request; under a dry run none of them is sent.
pub fn modify_steps(r: StepRequest) -> (steps: Vec<PlannedStep>)
    ensures
        steps@ == steps_of(r, step_list(r)),
        r.dry_run ==> forall|i: int| 0 <= i < steps@.len() ==> !(#[trigger] steps@[i]).send,
{
    let list = step_list_of(r);
    let send = !r.dry_run;
    let mut steps: Vec<PlannedStep> = Vec::new();
    let mut i: usize = 0;
    while i < list.len()
        invariant
            0 <= i <= list@.len(),
            send == !r.dry_run,
            steps@ =~= steps_of(r, list@.take(i as int)),
        decreases list@.len() - i,
    {
        steps.push(PlannedStep { step: list[i], send });
        assert(list@.take(i + 1) =~= list@.take(i as int).push(list@[i as int]));
        i = i + 1;
    }
    assert(list@.take(list@.len() as int) =~= list@);
    steps
}

} // verus!

use gnome_randr::cli::modify::changes::{
    modify_outcome, modify_steps, resolve_backlight, resolve_luminance, ModifyOutcome, ModifyStep, PlannedStep,
    RequestSummary, StepRequest,
};
use gnome_randr::cli::modify::{
    effective_transform, relative_position, RelativePlacement, resolve_clone_request, resolve_mode, resolve_scale, transform_swaps_axes,
    validate_actions, ActionOptions, Error, Position, Reflection, Rotation,
};
use gnome_randr::display_config::proxied_methods::{
    BacklightConnector, BacklightState, BrightnessFilter, ColorMode, LuminanceState, NativeDisplayState, PowerSaveMode,
};
use gnome_randr::display_config::resources::{Mode as ResourceMode, Output, Resources};
use gnome_randr::display_config::{
    DisplayConfig, KnownModeProperties, KnownProperties, LayoutMode, LogicalMonitor, Mode, Monitor,
    PhysicalMonitor,
};

fn actions() -> ActionOptions {
    ActionOptions {
        rotation: None,
        reflect: None,
        mode: None,
        preferred: false,
        auto_mode: false,
        refresh: None,
        primary: false,
        noprimary: false,
        off: false,
        layout_mode: None,
        power_save: None,
        position: None,
        backlight: None,
        luminance: None,
        reset_luminance: false,
        same_as: None,
        left_of: None,
        right_of: None,
        above: None,
        below: None,
        scale: None,
        color_mode: None,
        brightness: None,
        gamma: None,
        filter: BrightnessFilter::Linear,
    }
}

fn monitor_with_modes(modes: Vec<Mode>) -> PhysicalMonitor {
    PhysicalMonitor {
        connector: "eDP-1".to_string(),
        vendor: "BOE".to_string(),
        product: "0x07c9".to_string(),
        serial: "0x00000000".to_string(),
        modes,
        color_mode: None,
        supported_color_modes: vec![],
    }
}

fn resources() -> Resources {
    Resources {
        serial: 1,
        crtcs: vec![],
        outputs: vec![
            Output {
                id: 1,
                winsys_id: 1,
                current_crtc: 1,
                possible_crtcs: vec![10],
                name: "eDP-1".to_string(),
                modes: vec![100],
                clones: vec![2],
            },
            Output {
                id: 2,
                winsys_id: 2,
                current_crtc: 2,
                possible_crtcs: vec![10, 20],
                name: "HDMI-1".to_string(),
                modes: vec![200],
                clones: vec![1],
            },
        ],
        modes: vec![ResourceMode {
            id: 100,
            winsys_id: 100,
            width: 1920,
            height: 1080,
            frequency: 60.0f64.to_bits(),
            flags: 0,
        }],
        max_screen_width: 8192,
        max_screen_height: 8192,
    }
}

fn display_config() -> DisplayConfig {
    DisplayConfig {
        serial: 1,
        monitors: vec![
            PhysicalMonitor {
                connector: "eDP-1".to_string(),
                vendor: "BOE".to_string(),
                product: "0x07c9".to_string(),
                serial: "0x00000000".to_string(),
                modes: vec![mode_with_details("1920x1080@60", 1920, 1080, 60.0, vec![1.0], false, true)],
                color_mode: None,
                supported_color_modes: vec![],
            },
            PhysicalMonitor {
                connector: "HDMI-1".to_string(),
                vendor: "Dell".to_string(),
                product: "U2720Q".to_string(),
                serial: "0x11111111".to_string(),
                modes: vec![mode_with_details("1920x1080@59.94", 1920, 1080, 59.94, vec![1.0], true, true)],
                color_mode: None,
                supported_color_modes: vec![],
            },
        ],
        logical_monitors: vec![LogicalMonitor {
            x: 0,
            y: 0,
            scale: 1.0f64.to_bits(),
            transform: 0,
            primary: true,
            monitors: vec![Monitor {
                connector: "HDMI-1".to_string(),
                vendor: "Dell".to_string(),
                product: "U2720Q".to_string(),
                serial: "0x11111111".to_string(),
            }],
        }],
        known_properties: KnownProperties {
            supports_mirroring: true,
            layout_mode: LayoutMode::Physical,
            supports_changing_layout_mode: false,
            global_scale_required: false,
        },
    }
}

fn mode(id: &str, supported_scales: Vec<f64>, is_current: bool) -> Mode {
    Mode {
        id: id.to_string(),
        width: 1920,
        height: 1080,
        refresh_rate: 60.0f64.to_bits(),
        preferred_scale: supported_scales[0].to_bits(),
        supported_scales: supported_scales.iter().map(|s| s.to_bits()).collect(),
        known_properties: KnownModeProperties { is_current, is_preferred: is_current },
    }
}

fn mode_with_details(
    id: &str,
    width: i32,
    height: i32,
    refresh_rate: f64,
    supported_scales: Vec<f64>,
    is_current: bool,
    is_preferred: bool,
) -> Mode {
    Mode {
        id: id.to_string(),
        width,
        height,
        refresh_rate: refresh_rate.to_bits(),
        preferred_scale: supported_scales[0].to_bits(),
        supported_scales: supported_scales.iter().map(|s| s.to_bits()).collect(),
        known_properties: KnownModeProperties { is_current, is_preferred },
    }
}

fn refresh_distances(monitor: &PhysicalMonitor, requested: Option<f64>) -> Vec<u64> {
    match requested {
        Some(requested) => monitor
            .modes
            .iter()
            .map(|mode| (f64::from_bits(mode.refresh_rate) - requested).abs().to_bits())
            .collect(),
        None => vec![],
    }
}

fn resolve(monitor: &PhysicalMonitor, actions: &ActionOptions) -> Result<Option<usize>, Error> {
    let distances = refresh_distances(monitor, actions.refresh.map(f64::from_bits));
    resolve_mode(monitor, "eDP-1", actions, &distances)
}

fn scale_distances(monitor: &PhysicalMonitor, mode: Option<usize>, requested: f64) -> Vec<u64> {
    let index = mode
        .or_else(|| monitor.modes.iter().position(|m| m.known_properties.is_current))
        .or_else(|| monitor.modes.iter().position(|m| m.known_properties.is_preferred));
    match index {
        Some(i) => monitor.modes[i]
            .supported_scales
            .iter()
            .map(|scale| (f64::from_bits(*scale) - requested).abs().to_bits())
            .collect(),
        None => vec![],
    }
}

#[test]
fn resolve_mode_accepts_resolution_with_refresh() {
    let monitor = monitor_with_modes(vec![
        mode_with_details("1920x1080@59.934", 1920, 1080, 59.934, vec![1.0], true, false),
        mode_with_details("1920x1080@47.997", 1920, 1080, 47.997, vec![1.0], false, false),
        mode_with_details("1920x1080@60.100", 1920, 1080, 60.100, vec![1.0], false, true),
    ]);
    let mut actions = actions();
    actions.mode = Some("1920x1080".to_string());
    actions.refresh = Some(60.0f64.to_bits());

    let resolved = resolve(&monitor, &actions).unwrap().unwrap();
    assert_eq!(monitor.modes[resolved].id, "1920x1080@59.934");
}

#[test]
fn resolve_mode_uses_current_resolution_for_refresh_only() {
    let monitor = monitor_with_modes(vec![
        mode_with_details("1920x1080@59.934", 1920, 1080, 59.934, vec![1.0], true, false),
        mode_with_details("1920x1080@47.997", 1920, 1080, 47.997, vec![1.0], false, false),
        mode_with_details("1280x720@60", 1280, 720, 60.0, vec![1.0], false, true),
    ]);
    let mut actions = actions();
    actions.refresh = Some(48.0f64.to_bits());

    let resolved = resolve(&monitor, &actions).unwrap().unwrap();
    assert_eq!(monitor.modes[resolved].id, "1920x1080@47.997");
}

#[test]
fn resolve_mode_rejects_refresh_with_exact_mode_id() {
    let monitor = monitor_with_modes(vec![mode("1920x1080@59.999", vec![1.0], true)]);
    let mut actions = actions();
    actions.mode = Some("1920x1080@59.999".to_string());
    actions.refresh = Some(60.0f64.to_bits());

    match resolve(&monitor, &actions).unwrap_err() {
        Error::RefreshWithExactMode { mode } => assert_eq!(mode, "1920x1080@59.999"),
        error => panic!("unexpected error variant: {:?}", error),
    }
}

#[test]
fn resolve_mode_selects_preferred_mode() {
    let monitor = monitor_with_modes(vec![
        mode_with_details("1920x1080@59.934", 1920, 1080, 59.934, vec![1.0], true, false),
        mode_with_details("1920x1080@60.100", 1920, 1080, 60.100, vec![1.0], false, true),
    ]);
    let mut actions = actions();
    actions.preferred = true;

    let resolved = resolve(&monitor, &actions).unwrap().unwrap();
    assert_eq!(monitor.modes[resolved].id, "1920x1080@60.100");
}

#[test]
fn resolve_mode_auto_falls_back_to_current_mode() {
    let monitor = monitor_with_modes(vec![
        mode_with_details("1920x1080@59.934", 1920, 1080, 59.934, vec![1.0], true, false),
        mode_with_details("1280x720@60", 1280, 720, 60.0, vec![1.0], false, false),
    ]);
    let mut actions = actions();
    actions.auto_mode = true;

    let resolved = resolve(&monitor, &actions).unwrap().unwrap();
    assert_eq!(monitor.modes[resolved].id, "1920x1080@59.934");
}

#[test]
fn resolve_mode_reports_an_unknown_mode() {
    let monitor = monitor_with_modes(vec![mode("1920x1080@60", vec![1.0], true)]);
    let mut actions = actions();
    actions.mode = Some("800x600@60".to_string());
    match resolve(&monitor, &actions).unwrap_err() {
        Error::ModeNotFound { connector, mode } => {
            assert_eq!(connector, "eDP-1");
            assert_eq!(mode, "800x600@60");
        }
        error => panic!("unexpected error variant: {:?}", error),
    }
}

#[test]
fn resolve_scale_uses_selected_mode_supported_scales() {
    let monitor = monitor_with_modes(vec![
        mode("mode-a", vec![1.0, 1.25], true),
        mode("mode-b", vec![1.0, 1.7518248], false),
    ]);
    let resolved_mode = monitor.modes.iter().position(|mode| mode.id == "mode-b");

    let distances = scale_distances(&monitor, resolved_mode, 1.75);
    let resolved =
        resolve_scale(&monitor, "eDP-1", resolved_mode, Some(1.75f64.to_bits()), &distances).unwrap();
    assert_eq!(resolved.map(f64::from_bits), Some(1.7518248));
}

#[test]
fn resolve_scale_reports_helpful_error_for_invalid_scale() {
    let monitor = monitor_with_modes(vec![mode("mode-a", vec![1.0, 1.7518248], true)]);

    let distances = scale_distances(&monitor, None, 1.73);
    let error = resolve_scale(&monitor, "eDP-1", None, Some(1.73f64.to_bits()), &distances).unwrap_err();
    match error {
        Error::InvalidScale { connector, mode, requested, supported_scales } => {
            assert_eq!(connector, "eDP-1");
            assert_eq!(mode, "mode-a");
            assert_eq!(f64::from_bits(requested), 1.73);
            assert_eq!(
                supported_scales.iter().map(|s| f64::from_bits(*s)).collect::<Vec<f64>>(),
                vec![1.0, 1.7518248]
            );
        }
        _ => panic!("unexpected error variant"),
    }
}

#[test]
fn validate_actions_rejects_off_with_position() {
    let mut actions = actions();
    actions.off = true;
    actions.position = Some(Position { x: 1920, y: 0 });

    match validate_actions(&actions).unwrap_err() {
        Error::ConflictingOptions { option, conflicting } => {
            assert_eq!(option, "--off");
            assert_eq!(conflicting, "--position");
        }
        error => panic!("unexpected error variant: {:?}", error),
    }
}

#[test]
fn validate_actions_rejects_absolute_and_relative_position_together() {
    let mut actions = actions();
    actions.position = Some(Position { x: 0, y: 0 });
    actions.left_of = Some("HDMI-1".to_string());

    match validate_actions(&actions).unwrap_err() {
        Error::ConflictingOptions { option, conflicting } => {
            assert_eq!(option, "--position");
            assert_eq!(conflicting, "--left-of");
        }
        error => panic!("unexpected error variant: {:?}", error),
    }
}

#[test]
fn validate_actions_rejects_same_as_with_position() {
    let mut actions = actions();
    actions.same_as = Some("HDMI-1".to_string());
    actions.position = Some(Position { x: 0, y: 0 });

    match validate_actions(&actions).unwrap_err() {
        Error::ConflictingOptions { option, conflicting } => {
            assert_eq!(option, "--same-as");
            assert_eq!(conflicting, "--position");
        }
        error => panic!("unexpected error variant: {:?}", error),
    }
}

#[test]
fn validate_actions_accepts_an_empty_request() {
    assert!(validate_actions(&actions()).is_ok());
}

fn clone_distances(config: &DisplayConfig, target: &str, reference: &str) -> Vec<u64> {
    let target = config.monitors.iter().find(|m| m.connector == target).unwrap();
    let reference = config.monitors.iter().find(|m| m.connector == reference).unwrap();
    let current = reference.modes.iter().find(|m| m.known_properties.is_current).unwrap();
    target
        .modes
        .iter()
        .map(|mode| {
            (f64::from_bits(mode.refresh_rate) - f64::from_bits(current.refresh_rate)).abs().to_bits()
        })
        .collect()
}

#[test]
fn resolve_clone_request_uses_matching_mode_on_target() {
    let config = display_config();
    let resources = resources();
    let distances = clone_distances(&config, "eDP-1", "HDMI-1");
    let clone = resolve_clone_request(
        "eDP-1",
        "HDMI-1",
        config.physical_monitor("eDP-1").unwrap(),
        &config,
        &resources,
        &distances,
    )
    .unwrap();

    assert_eq!(clone.reference, "HDMI-1");
    assert_eq!(config.monitors[0].modes[clone.mode].id, "1920x1080@60");
}

#[test]
fn resolve_clone_request_rejects_missing_clone_capability() {
    let config = display_config();
    let mut resources = resources();
    resources.outputs[0].clones.clear();
    resources.outputs[1].clones.clear();
    let distances = clone_distances(&config, "eDP-1", "HDMI-1");

    match resolve_clone_request(
        "eDP-1",
        "HDMI-1",
        config.physical_monitor("eDP-1").unwrap(),
        &config,
        &resources,
        &distances,
    )
    .unwrap_err()
    {
        Error::CloneNotSupported { connector, reference } => {
            assert_eq!(connector, "eDP-1");
            assert_eq!(reference, "HDMI-1");
        }
        error => panic!("unexpected error variant: {:?}", error),
    }
}

#[test]
fn resolve_clone_request_rejects_cloning_onto_itself() {
    let config = display_config();
    let distances = clone_distances(&config, "eDP-1", "HDMI-1");
    match resolve_clone_request(
        "eDP-1",
        "eDP-1",
        config.physical_monitor("eDP-1").unwrap(),
        &config,
        &resources(),
        &distances,
    )
    .unwrap_err()
    {
        Error::CloneWithSelf { connector } => assert_eq!(connector, "eDP-1"),
        error => panic!("unexpected error variant: {:?}", error),
    }
}

#[test]
fn transforms_compose_rotation_and_reflection() {
    assert_eq!(effective_transform(0, Some(Rotation::Left), None), Some(3));
    assert_eq!(effective_transform(0, Some(Rotation::Right), Some(Reflection::Y)), Some(5));
    assert_eq!(effective_transform(0, None, None), None);
    assert_eq!(effective_transform(6, None, Some(Reflection::X)), Some(4));
    assert_eq!(effective_transform(6, None, Some(Reflection::Y)), Some(6));
    assert_eq!(effective_transform(7, None, Some(Reflection::Normal)), Some(3));
    assert_eq!(effective_transform(6, Some(Rotation::Right), None), Some(7));
    assert!(transform_swaps_axes(1));
    assert!(!transform_swaps_axes(2));
}

fn summary() -> RequestSummary {
    RequestSummary {
        needs_connector: true,
        output_enabled: true,
        off: false,
        clone: false,
        transform: false,
        layout_mode: false,
        position: false,
        relative_placement: false,
        mode: false,
        primary: false,
        noprimary: false,
        scale: false,
        color_mode: false,
        brightness: false,
        gamma: false,
        power_save: false,
        backlight: false,
        luminance: false,
        reset_luminance: false,
    }
}

#[test]
fn modify_outcome_follows_the_request() {
    assert_eq!(modify_outcome(summary()), ModifyOutcome::NoChanges);

    let mut s = summary();
    s.mode = true;
    assert_eq!(modify_outcome(s), ModifyOutcome::Proceed { layout: true });

    s.output_enabled = false;
    assert_eq!(modify_outcome(s), ModifyOutcome::OutputDisabled);

    let mut s = summary();
    s.off = true;
    s.output_enabled = false;
    assert_eq!(modify_outcome(s), ModifyOutcome::NoChanges);

    let mut s = summary();
    s.brightness = true;
    assert_eq!(modify_outcome(s), ModifyOutcome::Proceed { layout: false });
}

fn native_state() -> NativeDisplayState {
    NativeDisplayState {
        power_save_mode: PowerSaveMode::On,
        panel_orientation_managed: false,
        apply_monitors_config_allowed: None,
        night_light_supported: None,
        has_external_monitor: None,
        backlight: Some(BacklightState {
            serial: 3,
            connectors: vec![BacklightConnector { connector: "eDP-1".to_string(), active: true }],
        }),
        luminance: vec![LuminanceState {
            connector: "eDP-1".to_string(),
            color_mode: ColorMode::Default,
            luminance: 80.0f64.to_bits(),
            default: 100.0f64.to_bits(),
            is_unset: false,
        }],
    }
}

#[test]
fn backlight_requests_are_checked_against_the_native_state() {
    let native = native_state();
    assert!(matches!(resolve_backlight(Some(50), Some("eDP-1"), Some(&native)), Ok(Some(50))));
    assert!(matches!(resolve_backlight(Some(101), Some("eDP-1"), Some(&native)), Err(Error::InvalidBacklight(101))));
    match resolve_backlight(Some(50), Some("HDMI-1"), Some(&native)) {
        Err(Error::BacklightUnsupported { connector }) => assert_eq!(connector, "HDMI-1"),
        other => panic!("unexpected result: {:?}", other),
    }
    assert!(matches!(resolve_backlight(None, Some("eDP-1"), Some(&native)), Ok(None)));
}

#[test]
fn luminance_requests_use_the_current_color_mode() {
    let native = native_state();
    let mut monitor = monitor_with_modes(vec![mode("mode-a", vec![1.0], true)]);
    monitor.color_mode = Some(0);
    monitor.supported_color_modes = vec![0, 1];
    assert!(matches!(
        resolve_luminance(Some(80.0f64.to_bits()), false, Some("eDP-1"), Some(&monitor), Some(&native), None),
        Ok(Some(ColorMode::Default))
    ));
    assert!(matches!(
        resolve_luminance(None, true, Some("eDP-1"), Some(&monitor), Some(&native), Some(ColorMode::Bt2100)),
        Ok(Some(ColorMode::Bt2100))
    ));
    assert!(matches!(
        resolve_luminance(Some(120.0f64.to_bits()), false, Some("eDP-1"), Some(&monitor), Some(&native), None),
        Err(Error::InvalidLuminance(_))
    ));
    monitor.connector = "HDMI-1".to_string();
    assert!(matches!(
        resolve_luminance(None, true, Some("HDMI-1"), Some(&monitor), Some(&native), None),
        Err(Error::LuminanceUnsupported { .. })
    ));
    assert!(matches!(resolve_luminance(None, false, Some("eDP-1"), Some(&monitor), Some(&native), None), Ok(None)));
}

fn step_request(dry_run: bool) -> StepRequest {
    StepRequest {
        dry_run,
        layout: true,
        power_save: Some(PowerSaveMode::Off),
        power_save_supported: true,
        backlight: Some((3, 40)),
        luminance_color_mode: Some(ColorMode::Default),
        luminance: Some(80.0f64.to_bits()),
        reset_luminance: true,
        software_color: true,
    }
}

#[test]
fn modify_steps_run_in_order_and_a_dry_run_sends_nothing() {
    let steps = modify_steps(step_request(false));
    let expected = vec![
        ModifyStep::ApplyLayout,
        ModifyStep::SetPowerSave(PowerSaveMode::Off),
        ModifyStep::SetBacklight { serial: 3, value: 40 },
        ModifyStep::SetLuminance { color_mode: ColorMode::Default, luminance: 80.0f64.to_bits() },
        ModifyStep::ResetLuminance { color_mode: ColorMode::Default },
        ModifyStep::SoftwareColor,
    ];
    assert_eq!(steps, expected.iter().map(|step| PlannedStep { step: *step, send: true }).collect::<Vec<_>>());
    let dry = modify_steps(step_request(true));
    assert_eq!(dry, expected.iter().map(|step| PlannedStep { step: *step, send: false }).collect::<Vec<_>>());

    let mut unsupported = step_request(false);
    unsupported.power_save_supported = false;
    assert_eq!(
        modify_steps(unsupported),
        vec![
            PlannedStep { step: ModifyStep::ApplyLayout, send: true },
            PlannedStep { step: ModifyStep::RefusePowerSave, send: true },
        ]
    );
    let mut dry_unsupported = step_request(true);
    dry_unsupported.power_save_supported = false;
    assert_eq!(modify_steps(dry_unsupported).len(), 6);
}

#[test]
fn relative_positions_sit_next_to_the_anchor() {
    let anchor = (1920, 100);
    let anchor_size = (2560, 1440);
    let size = (1920, 1080);
    assert_eq!(relative_position(RelativePlacement::LeftOf, anchor, anchor_size, size), Some((0, 100)));
    assert_eq!(relative_position(RelativePlacement::RightOf, anchor, anchor_size, size), Some((4480, 100)));
    assert_eq!(relative_position(RelativePlacement::Above, anchor, anchor_size, size), Some((1920, -980)));
    assert_eq!(relative_position(RelativePlacement::Below, anchor, anchor_size, size), Some((1920, 1540)));
    assert_eq!(relative_position(RelativePlacement::RightOf, (i32::MAX, 0), anchor_size, size), None);
}

use gnome_randr::cli::modify::changes::{plan_layout_changes, plan_relative_placement, LayoutChanges, LayoutError};
use gnome_randr::cli::modify::planner::{Error, MonitorPlanner, PlacementError};
use gnome_randr::cli::modify::{Position, RelativePlacement};
use gnome_randr::display_config::proxied_methods::{ApplyConfig, ApplyMonitorProperty, ColorMode};
use gnome_randr::display_config::{
    DisplayConfig, KnownModeProperties, KnownProperties, LayoutMode, LogicalMonitor, Mode, Monitor,
    PhysicalMonitor,
};

fn mode(id: &str, is_current: bool, is_preferred: bool) -> Mode {
    Mode {
        id: id.to_string(),
        width: 1920,
        height: 1080,
        refresh_rate: 60.0f64.to_bits(),
        preferred_scale: 1.0f64.to_bits(),
        supported_scales: vec![1.0f64.to_bits(), 2.0f64.to_bits()],
        known_properties: KnownModeProperties { is_current, is_preferred },
    }
}

fn physical_monitor(connector: &str, current_mode: &str) -> PhysicalMonitor {
    PhysicalMonitor {
        connector: connector.to_string(),
        vendor: "Vendor".to_string(),
        product: "Product".to_string(),
        serial: format!("serial-{}", connector),
        modes: vec![mode(current_mode, true, true)],
        color_mode: None,
        supported_color_modes: vec![],
    }
}

fn associated_monitor(connector: &str) -> Monitor {
    Monitor {
        connector: connector.to_string(),
        vendor: "Vendor".to_string(),
        product: "Product".to_string(),
        serial: format!("serial-{}", connector),
    }
}

fn sample_config() -> DisplayConfig {
    DisplayConfig {
        serial: 1,
        monitors: vec![
            physical_monitor("eDP-1", "1920x1080@60"),
            physical_monitor("HDMI-1", "2560x1440@60"),
            physical_monitor("DP-1", "2560x1440@75"),
        ],
        logical_monitors: vec![
            LogicalMonitor {
                x: 0,
                y: 0,
                scale: 1.0f64.to_bits(),
                transform: 0,
                primary: true,
                monitors: vec![associated_monitor("eDP-1")],
            },
            LogicalMonitor {
                x: 1920,
                y: 0,
                scale: 1.0f64.to_bits(),
                transform: 0,
                primary: false,
                monitors: vec![associated_monitor("HDMI-1"), associated_monitor("DP-1")],
            },
        ],
        known_properties: KnownProperties {
            supports_mirroring: true,
            layout_mode: LayoutMode::Logical,
            supports_changing_layout_mode: false,
            global_scale_required: false,
        },
    }
}

fn no_changes() -> LayoutChanges {
    LayoutChanges {
        off: false,
        clone: None,
        transform: None,
        mode_id: None,
        scale: None,
        color_mode: None,
        position: None,
        relative: None,
        primary: false,
        noprimary: false,
    }
}

#[test]
fn planner_starts_from_full_current_state() {
    let config = sample_config();
    let planner = MonitorPlanner::new(&config).unwrap();
    let configs = planner.into_configs();

    assert_eq!(configs.len(), 2);
    assert_eq!(configs[0].monitors.len(), 1);
    assert_eq!(configs[0].monitors[0].connector, "eDP-1");
    assert_eq!(configs[0].monitors[0].mode_id, "1920x1080@60");
    assert_eq!(configs[1].monitors.len(), 2);
    assert_eq!(configs[1].monitors[0].connector, "HDMI-1");
    assert_eq!(configs[1].monitors[1].connector, "DP-1");
}

#[test]
fn planner_can_compose_primary_position_transform_and_mode_changes() {
    let config = sample_config();
    let mut planner = MonitorPlanner::new(&config).unwrap();
    planner.set_primary("HDMI-1").unwrap();
    planner.set_position("HDMI-1", 3200, 180).unwrap();
    planner.set_transform("HDMI-1", 1).unwrap();
    planner.set_mode("DP-1", "2560x1440@60").unwrap();
    planner.set_scale("HDMI-1", 1.25f64.to_bits()).unwrap();

    let configs = planner.into_configs();
    assert!(!configs[0].primary);
    assert!(configs[1].primary);
    assert_eq!(configs[1].x_pos, 3200);
    assert_eq!(configs[1].y_pos, 180);
    assert_eq!(configs[1].transform, 1);
    assert_eq!(f64::from_bits(configs[1].scale), 1.25);
    assert_eq!(configs[1].monitors[1].mode_id, "2560x1440@60");
}

#[test]
fn planner_can_remove_outputs_and_drop_empty_logical_configs() {
    let config = sample_config();
    let mut planner = MonitorPlanner::new(&config).unwrap();
    planner.remove_output("DP-1").unwrap();
    planner.remove_output("HDMI-1").unwrap();

    let configs = planner.into_configs();
    assert_eq!(configs.len(), 1);
    assert_eq!(configs[0].monitors.len(), 1);
    assert_eq!(configs[0].monitors[0].connector, "eDP-1");
}

#[test]
fn planner_refuses_unknown_connectors_and_keeps_the_plan() {
    let config = sample_config();
    let mut planner = MonitorPlanner::new(&config).unwrap();
    match planner.set_scale("VGA-1", 2.0f64.to_bits()) {
        Err(Error::ConnectorNotFound(connector)) => assert_eq!(connector, "VGA-1"),
        other => panic!("unexpected result: {:?}", other),
    }
    let configs = planner.into_configs();
    assert_eq!(f64::from_bits(configs[0].scale), 1.0);
    assert_eq!(f64::from_bits(configs[1].scale), 1.0);
}

#[test]
fn planner_reports_a_missing_physical_monitor() {
    let mut config = sample_config();
    config.monitors.remove(2);
    match MonitorPlanner::new(&config) {
        Err(Error::PhysicalMonitorNotFound(connector)) => assert_eq!(connector, "DP-1"),
        _ => panic!("expected a missing physical monitor"),
    }
}

#[test]
fn planner_mirrors_an_output_onto_the_reference() {
    let config = sample_config();
    let mut planner = MonitorPlanner::new(&config).unwrap();
    planner.clone_with("eDP-1", "HDMI-1", "1920x1080@60").unwrap();
    assert_eq!(planner.position("eDP-1").unwrap(), (1920, 0));
    let configs = planner.into_configs();
    assert_eq!(configs.len(), 1);
    assert_eq!(configs[0].monitors.len(), 3);
    assert_eq!(configs[0].monitors[2].connector, "eDP-1");
    assert_eq!(configs[0].monitors[2].mode_id, "1920x1080@60");
}

#[test]
fn failed_mirroring_leaves_the_plan_unchanged() {
    let config = sample_config();
    let mut planner = MonitorPlanner::new(&config).unwrap();
    match planner.clone_with("eDP-1", "VGA-1", "1920x1080@60") {
        Err(Error::ConnectorNotFound(connector)) => assert_eq!(connector, "VGA-1"),
        other => panic!("unexpected result: {:?}", other),
    }
    let configs = planner.into_configs();
    assert_eq!(configs.len(), 2);
    assert_eq!(configs[0].monitors[0].connector, "eDP-1");
}

#[test]
fn planner_sets_the_color_mode_of_one_monitor() {
    let config = sample_config();
    let mut planner = MonitorPlanner::new(&config).unwrap();
    planner.set_color_mode("DP-1", ColorMode::Bt2100).unwrap();
    let configs = planner.into_configs();
    assert!(configs[1].monitors[0].properties.is_empty());
    assert_eq!(configs[1].monitors[1].properties, vec![ApplyMonitorProperty::ColorMode(ColorMode::Bt2100)]);
}

#[test]
fn layout_changes_are_planned_in_order() {
    let config = sample_config();
    let mut planner = MonitorPlanner::new(&config).unwrap();
    let mut changes = no_changes();
    changes.transform = Some(3);
    changes.position = Some(Position { x: -1080, y: 0 });
    changes.primary = true;
    plan_layout_changes(&mut planner, "DP-1", &changes).unwrap();
    let configs = planner.into_configs();
    assert!(!configs[0].primary);
    assert!(configs[1].primary);
    assert_eq!(configs[1].transform, 3);
    assert_eq!((configs[1].x_pos, configs[1].y_pos), (-1080, 0));
}

#[test]
fn layout_changes_stop_at_the_first_missing_connector() {
    let config = sample_config();
    let mut planner = MonitorPlanner::new(&config).unwrap();
    let mut changes = no_changes();
    changes.off = true;
    changes.primary = true;
    plan_layout_changes(&mut planner, "eDP-1", &changes).unwrap_err();
}

#[test]
fn apply_config_from_takes_the_current_mode() {
    let mut monitor = physical_monitor("HDMI-1", "2560x1440@60");
    monitor.modes.insert(0, mode("1920x1080@60", false, true));
    let logical = LogicalMonitor {
        x: 1920,
        y: 10,
        scale: 2.0f64.to_bits(),
        transform: 1,
        primary: true,
        monitors: vec![associated_monitor("HDMI-1")],
    };
    let config = ApplyConfig::from(&logical, &monitor);
    assert_eq!(config.x_pos, 1920);
    assert_eq!(config.y_pos, 10);
    assert_eq!(config.scale, 2.0f64.to_bits());
    assert_eq!(config.transform, 1);
    assert!(config.primary);
    assert_eq!(config.monitors.len(), 1);
    assert_eq!(config.monitors[0].connector, "HDMI-1");
    assert_eq!(config.monitors[0].mode_id, "2560x1440@60");
    assert!(config.monitors[0].properties.is_empty());
}

fn sizes() -> Vec<Option<(i32, i32)>> {
    vec![Some((1920, 1080)), Some((2560, 1440))]
}

#[test]
fn relative_placement_is_planned_before_the_primary_flag() {
    let config = sample_config();
    let mut planner = MonitorPlanner::new(&config).unwrap();
    let mut changes = no_changes();
    changes.relative = Some(("eDP-1".to_string(), RelativePlacement::LeftOf));
    changes.primary = true;
    plan_layout_changes(&mut planner, "HDMI-1", &changes).unwrap();
    assert!(planner.configs()[0].primary);
    assert!(!planner.configs()[1].primary);

    let placed = plan_relative_placement(&mut planner, "HDMI-1", &changes, &sizes()).unwrap();
    assert_eq!(placed, Some((-2560, 0)));
    let configs = planner.into_configs();
    assert_eq!((configs[1].x_pos, configs[1].y_pos), (-2560, 0));
    assert!(!configs[0].primary);
    assert!(configs[1].primary);
}

#[test]
fn relative_placement_below_starts_at_the_reference_bottom() {
    let config = sample_config();
    let mut planner = MonitorPlanner::new(&config).unwrap();
    let mut changes = no_changes();
    changes.relative = Some(("eDP-1".to_string(), RelativePlacement::Below));
    changes.noprimary = true;
    let placed = plan_relative_placement(&mut planner, "DP-1", &changes, &sizes()).unwrap();
    assert_eq!(placed, Some((0, 1080)));
    let configs = planner.into_configs();
    assert_eq!((configs[1].x_pos, configs[1].y_pos), (0, 1080));
    assert!(configs[0].primary);
    assert!(!configs[1].primary);
}

#[test]
fn without_relative_placement_nothing_is_left_to_plan() {
    let config = sample_config();
    let mut planner = MonitorPlanner::new(&config).unwrap();
    let mut changes = no_changes();
    changes.primary = true;
    let placed = plan_relative_placement(&mut planner, "HDMI-1", &changes, &sizes()).unwrap();
    assert_eq!(placed, None);
    let configs = planner.into_configs();
    assert!(configs[0].primary);
    assert!(!configs[1].primary);
    assert_eq!((configs[1].x_pos, configs[1].y_pos), (1920, 0));
}

#[test]
fn relative_placement_reports_each_refusal() {
    let config = sample_config();
    let mut planner = MonitorPlanner::new(&config).unwrap();
    let mut changes = no_changes();

    changes.relative = Some(("VGA-1".to_string(), RelativePlacement::RightOf));
    assert!(matches!(
        plan_relative_placement(&mut planner, "HDMI-1", &changes, &sizes()),
        Err(LayoutError::Placement(PlacementError::ReferenceNotPlanned))
    ));
    assert!(matches!(
        plan_relative_placement(&mut planner, "VGA-2", &changes, &sizes()),
        Err(LayoutError::Placement(PlacementError::ConnectorNotPlanned))
    ));

    changes.relative = Some(("eDP-1".to_string(), RelativePlacement::RightOf));
    assert!(matches!(
        plan_relative_placement(&mut planner, "HDMI-1", &changes, &vec![Some((1920, 1080)), None]),
        Err(LayoutError::Placement(PlacementError::SizeUnknown))
    ));

    planner.set_position("eDP-1", i32::MIN + 10, 0).unwrap();
    changes.relative = Some(("eDP-1".to_string(), RelativePlacement::LeftOf));
    assert!(matches!(
        plan_relative_placement(&mut planner, "HDMI-1", &changes, &sizes()),
        Err(LayoutError::Placement(PlacementError::OutOfRange))
    ));
    let configs = planner.into_configs();
    assert_eq!((configs[1].x_pos, configs[1].y_pos), (1920, 0));
}

use gnome_randr::cli::query::selected_monitors;
use gnome_randr::cli::query_text::{
    list_text_of, logical_summary_text, mode_line_text, structured_text_of, summary_text_of, DisplayText, Geometry,
    LogicalText, ModeText, MonitorText, PropertyText,
};
use gnome_randr::display_config::{
    DisplayConfig, KnownModeProperties, KnownProperties, LayoutMode, LogicalMonitor, Mode, Monitor,
    PhysicalMonitor,
};

fn property(key: &str, value: &str) -> PropertyText {
    PropertyText { key: key.to_string(), value: value.to_string() }
}

fn mode(id: &str, width: i32, height: i32, scales: Vec<f64>, is_current: bool) -> Mode {
    Mode {
        id: id.to_string(),
        width,
        height,
        refresh_rate: 60.0f64.to_bits(),
        preferred_scale: 1.0f64.to_bits(),
        supported_scales: scales.into_iter().map(f64::to_bits).collect(),
        known_properties: KnownModeProperties { is_current, is_preferred: true },
    }
}

fn sample_config() -> DisplayConfig {
    DisplayConfig {
        serial: 7,
        monitors: vec![
            PhysicalMonitor {
                connector: "eDP-1".to_string(),
                vendor: "BOE".to_string(),
                product: "0x07c9".to_string(),
                serial: "0x00000000".to_string(),
                modes: vec![mode("1920x1080@60", 1920, 1080, vec![1.0, 2.0], true)],
                color_mode: Some(1),
                supported_color_modes: vec![0, 1],
            },
            PhysicalMonitor {
                connector: "HDMI-1".to_string(),
                vendor: "Dell".to_string(),
                product: "U2720Q".to_string(),
                serial: "0x11111111".to_string(),
                modes: vec![mode("2560x1440@60", 2560, 1440, vec![1.0], false)],
                color_mode: None,
                supported_color_modes: vec![],
            },
        ],
        logical_monitors: vec![LogicalMonitor {
            x: 0,
            y: 0,
            scale: 1.0f64.to_bits(),
            transform: 0,
            primary: true,
            monitors: vec![Monitor {
                connector: "eDP-1".to_string(),
                vendor: "BOE".to_string(),
                product: "0x07c9".to_string(),
                serial: "0x00000000".to_string(),
            }],
        }],
        known_properties: KnownProperties {
            supports_mirroring: true,
            layout_mode: LayoutMode::Physical,
            supports_changing_layout_mode: false,
            global_scale_required: false,
        },
    }
}

fn display_text() -> DisplayText {
    DisplayText {
        renderer: Some("native".to_string()),
        properties: vec![property("compositor-capabilities", "[\"gamma\",\"clone\"]"), property("renderer", "\"native\"")],
    }
}

fn logical_texts() -> Vec<LogicalText> {
    vec![LogicalText { scale: "1".to_string(), properties: vec![property("presentation", "false")] }]
}

fn monitor_text(connector: &str, brightness: &str, gamma: &str) -> MonitorText {
    if connector == "eDP-1" {
        MonitorText {
            display_name: Some("Built-in display".to_string()),
            is_builtin: Some(true),
            width_mm: Some(300),
            height_mm: Some(190),
            is_underscanning: Some(false),
            software_brightness: brightness.to_string(),
            software_gamma: gamma.to_string(),
            modes: vec![ModeText {
                refresh_rate: "60".to_string(),
                preferred_scale: "1".to_string(),
                supported_scales: vec!["1".to_string(), "2".to_string()],
                properties: vec![property("color-space", "\"srgb\"")],
            }],
            properties: vec![
                property("color-mode", "1"),
                property("display-name", "\"Built-in display\""),
                property("height-mm", "190"),
                property("is-builtin", "true"),
                property("is-underscanning", "false"),
                property("supported-color-modes", "[0,1]"),
                property("width-mm", "300"),
            ],
        }
    } else {
        MonitorText {
            display_name: None,
            is_builtin: None,
            width_mm: None,
            height_mm: None,
            is_underscanning: None,
            software_brightness: brightness.to_string(),
            software_gamma: gamma.to_string(),
            modes: vec![ModeText {
                refresh_rate: "60".to_string(),
                preferred_scale: "1".to_string(),
                supported_scales: vec!["1".to_string()],
                properties: vec![],
            }],
            properties: vec![],
        }
    }
}

fn structured(connector: Option<&str>, brightness: &str, gamma: &str, verbose: bool, show_properties: bool) -> String {
    let config = sample_config();
    let selected = selected_monitors(connector, &config).unwrap();
    let texts: Vec<MonitorText> = selected
        .physical_monitors
        .iter()
        .map(|index| monitor_text(&config.monitors[*index].connector, brightness, gamma))
        .collect();
    structured_text_of(
        &config,
        connector.is_some(),
        &display_text(),
        &logical_texts(),
        &selected.logical_monitors,
        &selected.physical_monitors,
        &texts,
        verbose,
        show_properties,
    )
}

#[test]
fn properties_text_includes_raw_property_sections() {
    let output = structured(None, "1 (linear)", "1", false, true);

    assert!(output.contains("properties:"));
    assert!(output.contains("is-underscanning: false"));
    assert!(output.contains("supported-color-modes: [0,1]"));
    assert!(output.contains("mode_properties[1920x1080@60]:"));
    assert!(output.contains("color-space: \"srgb\""));
    assert!(output.contains("HDMI-1:"));
    assert!(output.contains("enabled: false"));
}

#[test]
fn verbose_text_uses_json_style_field_names() {
    let output = structured(Some("eDP-1"), "1.25 (gamma)", "1.2:1.1:1", true, true);

    assert!(output.contains("display:"));
    assert!(output.contains("logical monitors:"));
    assert!(output.contains("display_name: Built-in display"));
    assert!(output.contains("reflection: normal"));
    assert!(output.contains("color_mode: bt2100"));
    assert!(output.contains("supported_color_modes: [default, bt2100]"));
    assert!(output.contains("is_underscanning: false"));
    assert!(output.contains("software_brightness: 1.25 (gamma)"));
    assert!(output.contains("software_gamma: 1.2:1.1:1"));
    assert!(output.contains("refresh_rate: 60"));
    assert!(output.contains("is_current: true"));
}

#[test]
fn disabled_connector_text_query_stays_queryable() {
    let output = structured(Some("HDMI-1"), "unknown", "unknown", false, false);

    assert!(!output.contains("logical monitors:"));
    assert!(output.contains("connector: HDMI-1"));
    assert!(output.contains("enabled: false"));
    assert!(output.contains("software_brightness: unknown"));
    assert!(output.contains("software_gamma: unknown"));
}

#[test]
fn summary_output_reports_enabled_state() {
    let config = sample_config();
    let selected = selected_monitors(None, &config).unwrap();
    let texts = vec![monitor_text("eDP-1", "1 (linear)", "1"), monitor_text("HDMI-1", "unknown", "unknown")];
    let output = summary_text_of(
        &config,
        false,
        &logical_texts(),
        &selected.logical_monitors,
        &selected.physical_monitors,
        &texts,
    );

    assert!(output.contains("outputs:"));
    assert!(output.contains(
        "eDP-1: enabled=true, color_mode=bt2100, supported_color_modes=[default, bt2100], is_underscanning=false, software brightness=1 (linear), software gamma=1"
    ));
    assert!(output.contains(
        "HDMI-1: enabled=false, color_mode=null, supported_color_modes=[], is_underscanning=null, software brightness=unknown, software gamma=unknown"
    ));
}

#[test]
fn listmonitors_view_matches_xrandr_style_shape() {
    let config = sample_config();
    let selected = selected_monitors(None, &config).unwrap();
    let geometry = vec![Geometry { width: 1920, height: 1080, width_mm: 300, height_mm: 190 }];
    let output = list_text_of(&config, &selected.logical_monitors, &geometry);

    assert!(output.starts_with("Monitors: 1\n"));
    assert!(output.contains(" 0: +*eDP-1 1920/300x1080/190+0+0  eDP-1"));
}

#[test]
fn default_text_view_is_laid_out_section_by_section() {
    let output = structured(Some("eDP-1"), "1 (linear)", "1", false, false);
    assert_eq!(
        output,
        "logical monitors:\n  0: x=0 y=0 scale=1 rotation=normal reflection=normal primary=yes connectors=eDP-1\n\nmonitors:\n  eDP-1:\n    connector: eDP-1\n    enabled: true\n    vendor: BOE\n    product: 0x07c9\n    serial: 0x00000000\n    display_name: Built-in display\n    is_builtin: true\n    width_mm: 300\n    height_mm: 190\n    color_mode: bt2100\n    supported_color_modes: [default, bt2100]\n    is_underscanning: false\n    current_mode: 1920x1080@60\n    preferred_mode: 1920x1080@60\n    software_brightness: 1 (linear)\n    software_gamma: 1\n    modes:\n      1920x1080@60 1920x1080@60 scales=[1, 2] current preferred\n"
    );
}

#[test]
fn display_section_leaves_the_renderer_out_of_raw_properties() {
    let output = structured(None, "1 (linear)", "1", false, true);
    assert!(output.starts_with(
        "display:\n  serial: 7\n  layout_mode: physical\n  supports_mirroring: true\n  supports_changing_layout_mode: false\n  global_scale_required: false\n  renderer: native\n  properties:\n    compositor-capabilities: [\"gamma\",\"clone\"]\n\nlogical monitors:\n"
    ));
}

#[test]
fn summary_lines_and_mode_lines() {
    let config = sample_config();
    let mut logical = config.logical_monitors[0].clone();
    logical.x = -1920;
    logical.transform = 5;
    logical.primary = false;
    assert_eq!(
        logical_summary_text(&logical, "1.5"),
        "x=-1920 y=0 scale=1.5 rotation=right reflection=y primary=no connectors=eDP-1"
    );
    let texts = monitor_text("HDMI-1", "unknown", "unknown");
    assert_eq!(
        mode_line_text(&config.monitors[1].modes[0], &texts.modes[0]),
        "2560x1440@60 2560x1440@60 scales=[1] preferred"
    );
}

use gnome_randr::cli::monitors_xml::{escape_xml, render_monitors_xml, transform_to_xml, Error};
use gnome_randr::display_config::proxied_methods::{
    ApplyConfig, ApplyMonitor, ApplyMonitorProperty, ColorMode,
};
use gnome_randr::display_config::{
    DisplayConfig, KnownModeProperties, KnownProperties, LayoutMode, LogicalMonitor, Mode, Monitor,
    PhysicalMonitor,
};

fn format_trimmed(value: f64, places: usize) -> String {
    let formatted = format!("{:.*}", places, value);
    formatted.trim_end_matches('0').trim_end_matches('.').to_string()
}

fn display_config() -> DisplayConfig {
    DisplayConfig {
        serial: 1,
        monitors: vec![
            PhysicalMonitor {
                connector: "eDP-1".to_string(),
                vendor: "AUO".to_string(),
                product: "0x2992".to_string(),
                serial: "0x00000000".to_string(),
                modes: vec![Mode {
                    id: "1920x1080@60".to_string(),
                    width: 1920,
                    height: 1080,
                    refresh_rate: 60.0f64.to_bits(),
                    preferred_scale: 1.0f64.to_bits(),
                    supported_scales: vec![1.0f64.to_bits()],
                    known_properties: KnownModeProperties { is_current: true, is_preferred: true },
                }],
                color_mode: None,
                supported_color_modes: vec![],
            },
            PhysicalMonitor {
                connector: "HDMI-1".to_string(),
                vendor: "GSM".to_string(),
                product: "0x4b77".to_string(),
                serial: "0x000084ff".to_string(),
                modes: vec![Mode {
                    id: "1440x900@59.887".to_string(),
                    width: 1440,
                    height: 900,
                    refresh_rate: 59.887f64.to_bits(),
                    preferred_scale: 1.0f64.to_bits(),
                    supported_scales: vec![1.0f64.to_bits()],
                    known_properties: KnownModeProperties { is_current: true, is_preferred: true },
                }],
                color_mode: None,
                supported_color_modes: vec![],
            },
        ],
        logical_monitors: vec![LogicalMonitor {
            x: 0,
            y: 0,
            scale: 1.0f64.to_bits(),
            transform: 0,
            primary: true,
            monitors: vec![Monitor {
                connector: "eDP-1".to_string(),
                vendor: "AUO".to_string(),
                product: "0x2992".to_string(),
                serial: "0x00000000".to_string(),
            }],
        }],
        known_properties: KnownProperties {
            supports_mirroring: true,
            layout_mode: LayoutMode::Logical,
            supports_changing_layout_mode: true,
            global_scale_required: false,
        },
    }
}

fn configs() -> Vec<ApplyConfig> {
    vec![ApplyConfig {
        x_pos: 0,
        y_pos: 0,
        scale: 1.0f64.to_bits(),
        transform: 0,
        primary: true,
        monitors: vec![ApplyMonitor {
            connector: "eDP-1".to_string(),
            mode_id: "1920x1080@60".to_string(),
            properties: vec![ApplyMonitorProperty::ColorMode(ColorMode::Bt2100)],
        }],
    }]
}

fn labels(config: &DisplayConfig, configs: &[ApplyConfig]) -> (Vec<String>, Vec<Vec<String>>) {
    let scales = configs.iter().map(|c| format_trimmed(f64::from_bits(c.scale), 2)).collect();
    let rates = config
        .monitors
        .iter()
        .map(|m| m.modes.iter().map(|mode| format_trimmed(f64::from_bits(mode.refresh_rate), 3)).collect())
        .collect();
    (scales, rates)
}

#[test]
fn renders_monitors_xml() {
    let config = display_config();
    let configs = configs();
    let (scales, rates) = labels(&config, &configs);
    let xml = render_monitors_xml(&config, Some(LayoutMode::Physical), &configs, &scales, &rates).unwrap();

    assert!(xml.contains("<monitors version=\"2\">"));
    assert!(xml.contains("<layoutmode>physical</layoutmode>"));
    assert!(xml.contains("<primary>yes</primary>"));
    assert!(xml.contains("<color-mode>bt2100</color-mode>"));
    assert!(xml.contains("<disabled>"));
    assert!(xml.contains("<connector>HDMI-1</connector>"));
}

#[test]
fn renders_the_whole_document() {
    let config = display_config();
    let mut configs = configs();
    configs[0].transform = 5;
    configs[0].monitors[0].properties.clear();
    let (scales, rates) = labels(&config, &configs);
    let xml = render_monitors_xml(&config, None, &configs, &scales, &rates).unwrap();
    let expected = "<monitors version=\"2\">\n  <configuration>\n    <layoutmode>logical</layoutmode>\n    <logicalmonitor>\n      <x>0</x>\n      <y>0</y>\n      <scale>1</scale>\n      <primary>yes</primary>\n      <transform>\n        <rotation>right</rotation>\n        <flipped>yes</flipped>\n      </transform>\n      <monitor>\n        <monitorspec>\n          <connector>eDP-1</connector>\n          <vendor>AUO</vendor>\n          <product>0x2992</product>\n          <serial>0x00000000</serial>\n        </monitorspec>\n        <mode>\n          <width>1920</width>\n          <height>1080</height>\n          <rate>60</rate>\n        </mode>\n      </monitor>\n    </logicalmonitor>\n    <disabled>\n      <monitorspec>\n        <connector>HDMI-1</connector>\n        <vendor>GSM</vendor>\n        <product>0x4b77</product>\n        <serial>0x000084ff</serial>\n      </monitorspec>\n    </disabled>\n  </configuration>\n</monitors>\n";
    assert_eq!(xml, expected);
}

#[test]
fn rendering_reports_a_missing_mode() {
    let config = display_config();
    let mut configs = configs();
    configs[0].monitors[0].mode_id = "800x600@60".to_string();
    let (scales, rates) = labels(&config, &configs);
    match render_monitors_xml(&config, None, &configs, &scales, &rates) {
        Err(Error::MissingMode { connector, mode_id }) => {
            assert_eq!(connector, "eDP-1");
            assert_eq!(mode_id, "800x600@60");
        }
        other => panic!("unexpected result: {:?}", other),
    }
    configs[0].monitors[0].connector = "DP-7".to_string();
    match render_monitors_xml(&config, None, &configs, &scales, &rates) {
        Err(Error::MissingPhysicalMonitor { connector }) => assert_eq!(connector, "DP-7"),
        other => panic!("unexpected result: {:?}", other),
    }
}

#[test]
fn escaping_covers_the_five_special_characters() {
    assert_eq!(escape_xml("a&b<c>d\"e'f"), "a&amp;b&lt;c&gt;d&quot;e&apos;f");
    assert_eq!(escape_xml("plain"), "plain");
}

#[test]
fn transforms_are_written_as_rotation_and_flip() {
    assert_eq!(transform_to_xml(0), ("normal", "no"));
    assert_eq!(transform_to_xml(3), ("left", "no"));
    assert_eq!(transform_to_xml(6), ("inverted", "yes"));
}

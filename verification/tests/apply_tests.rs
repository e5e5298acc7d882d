use gnome_randr::cli::apply::{
    build_apply_configs, check_schema_version, default_reflection, desired_software_color,
    reflection_from_transform, rotation_from_transform, transform_from_profile, Error, Profile,
    ProfileAssociatedMonitor, ProfileLogicalMonitor, ProfileMode, ProfileMonitor,
    ProfileSoftwareBrightness, ProfileSoftwareGamma,
};
use gnome_randr::display_config::proxied_methods::{BrightnessFilter, ColorMode, GammaAdjustment};
use gnome_randr::display_config::{
    DisplayConfig, KnownModeProperties, KnownProperties, LayoutMode, LogicalMonitor, Mode, Monitor,
    PhysicalMonitor,
};

fn mode(id: &str, width: i32, height: i32, refresh: f64, is_current: bool) -> Mode {
    Mode {
        id: id.to_string(),
        width,
        height,
        refresh_rate: refresh.to_bits(),
        preferred_scale: 1.0f64.to_bits(),
        supported_scales: vec![1.0f64.to_bits()],
        known_properties: KnownModeProperties { is_current, is_preferred: is_current },
    }
}

fn display_config() -> DisplayConfig {
    DisplayConfig {
        serial: 1,
        monitors: vec![
            PhysicalMonitor {
                connector: "HDMI-9".to_string(),
                vendor: "Dell".to_string(),
                product: "U2720Q".to_string(),
                serial: "123".to_string(),
                modes: vec![
                    mode("2560x1440@60", 2560, 1440, 60.0, true),
                    mode("2560x1440@59.94", 2560, 1440, 59.94, false),
                ],
                color_mode: Some(1),
                supported_color_modes: vec![0, 1],
            },
            PhysicalMonitor {
                connector: "eDP-1".to_string(),
                vendor: "BOE".to_string(),
                product: "Panel".to_string(),
                serial: "abc".to_string(),
                modes: vec![mode("1920x1080@60", 1920, 1080, 60.0, true)],
                color_mode: None,
                supported_color_modes: vec![],
            },
        ],
        logical_monitors: vec![LogicalMonitor {
            x: 0,
            y: 0,
            scale: 1.0f64.to_bits(),
            transform: 0,
            primary: true,
            monitors: vec![Monitor {
                connector: "HDMI-9".to_string(),
                vendor: "Dell".to_string(),
                product: "U2720Q".to_string(),
                serial: "123".to_string(),
            }],
        }],
        known_properties: KnownProperties {
            supports_mirroring: true,
            layout_mode: LayoutMode::Physical,
            supports_changing_layout_mode: false,
            global_scale_required: false,
        },
    }
}

fn profile() -> Profile {
    Profile {
        schema_version: 5,
        layout_mode: "physical".to_string(),
        logical_monitors: vec![ProfileLogicalMonitor {
            x: 100,
            y: 200,
            scale: 1.0f64.to_bits(),
            rotation: "normal".to_string(),
            reflection: "x".to_string(),
            primary: true,
            monitors: vec![ProfileAssociatedMonitor {
                connector: "HDMI-1".to_string(),
                vendor: "Dell".to_string(),
                product: "U2720Q".to_string(),
                serial: "123".to_string(),
            }],
        }],
        monitors: vec![ProfileMonitor {
            connector: "HDMI-1".to_string(),
            enabled: true,
            vendor: "Dell".to_string(),
            product: "U2720Q".to_string(),
            serial: "123".to_string(),
            color_mode: Some("bt2100".to_string()),
            modes: vec![ProfileMode {
                id: "2560x1440@59.94".to_string(),
                width: 2560,
                height: 1440,
                refresh_rate: 59.94f64.to_bits(),
                is_current: true,
            }],
            software_brightness: Some(ProfileSoftwareBrightness {
                state: "managed".to_string(),
                brightness: Some(1.25f64.to_bits()),
                filter: Some("filmic".to_string()),
            }),
            software_gamma: Some(ProfileSoftwareGamma {
                state: "managed".to_string(),
                red: Some(1.1f64.to_bits()),
                green: Some(1.0f64.to_bits()),
                blue: Some(0.9f64.to_bits()),
            }),
        }],
    }
}

fn deltas(profile: &Profile, config: &DisplayConfig) -> Vec<Vec<Vec<Vec<u64>>>> {
    profile
        .monitors
        .iter()
        .map(|pm| {
            config
                .monitors
                .iter()
                .map(|cm| {
                    pm.modes
                        .iter()
                        .map(|pmode| {
                            cm.modes
                                .iter()
                                .map(|cmode| {
                                    (f64::from_bits(cmode.refresh_rate) - f64::from_bits(pmode.refresh_rate))
                                        .abs()
                                        .to_bits()
                                })
                                .collect()
                        })
                        .collect()
                })
                .collect()
        })
        .collect()
}

fn build(
    profile: &Profile,
    config: &DisplayConfig,
) -> Result<
    (
        Vec<gnome_randr::display_config::proxied_methods::ApplyConfig>,
        Vec<(usize, Option<gnome_randr::cli::apply::DesiredSoftwareColor>)>,
    ),
    Error,
> {
    build_apply_configs(profile, config, &deltas(profile, config))
}

#[test]
fn build_apply_configs_matches_monitor_by_identity() {
    let profile = profile();
    let config = display_config();
    let (configs, software_color) = build(&profile, &config).unwrap();

    assert_eq!(configs.len(), 1);
    assert_eq!(configs[0].x_pos, 100);
    assert_eq!(configs[0].y_pos, 200);
    assert_eq!(configs[0].transform, 6);
    assert_eq!(configs[0].monitors[0].connector, "HDMI-9");
    assert_eq!(configs[0].monitors[0].mode_id, "2560x1440@59.94");
    assert_eq!(software_color.len(), 1);
}

#[test]
fn build_apply_configs_rejects_missing_hardware() {
    let mut profile = profile();
    profile.logical_monitors[0].monitors[0].serial = "missing".to_string();
    profile.monitors[0].serial = "missing".to_string();

    match build(&profile, &display_config()).unwrap_err() {
        Error::MissingCurrentMonitor(identity) => assert_eq!(identity.serial, "missing"),
        error => panic!("unexpected error: {:?}", error),
    }
}

#[test]
fn build_apply_configs_validates_color_mode_support() {
    let mut config = display_config();
    config.monitors[0].supported_color_modes = vec![0];

    match build(&profile(), &config).unwrap_err() {
        Error::ColorModeUnavailable { requested, supported, .. } => {
            assert_eq!(requested, ColorMode::Bt2100);
            assert_eq!(supported, vec![ColorMode::Default]);
        }
        error => panic!("unexpected error: {:?}", error),
    }
}

#[test]
fn build_apply_configs_matches_nearest_refresh_when_the_id_differs() {
    let mut profile = profile();
    profile.monitors[0].modes[0].id = "2560x1440@59.95".to_string();
    profile.monitors[0].modes[0].refresh_rate = 59.95f64.to_bits();
    let config = display_config();
    let (configs, software_color) = build(&profile, &config).unwrap();
    assert_eq!(configs[0].monitors[0].mode_id, "2560x1440@59.94");
    let (index, desired) = software_color[0];
    assert_eq!(index, 0);
    let desired = desired.unwrap();
    assert_eq!(desired.brightness.map(f64::from_bits), Some(1.25));
    assert_eq!(desired.filter, BrightnessFilter::Filmic);
}

#[test]
fn build_apply_configs_refuses_another_layout_mode() {
    let mut profile = profile();
    profile.layout_mode = "logical".to_string();
    match build(&profile, &display_config()).unwrap_err() {
        Error::UnsupportedLayoutMode { profile, current } => {
            assert_eq!(profile, "logical");
            assert_eq!(current, "physical");
        }
        error => panic!("unexpected error: {:?}", error),
    }
}

#[test]
fn build_apply_configs_refuses_a_monitor_used_twice() {
    let mut profile = profile();
    let again = ProfileAssociatedMonitor {
        connector: "HDMI-1".to_string(),
        vendor: "Dell".to_string(),
        product: "U2720Q".to_string(),
        serial: "123".to_string(),
    };
    profile.logical_monitors[0].monitors.push(again);
    match build(&profile, &display_config()).unwrap_err() {
        Error::DuplicateActiveMonitor(identity) => assert_eq!(identity.vendor, "Dell"),
        error => panic!("unexpected error: {:?}", error),
    }
}

#[test]
fn build_apply_configs_refuses_a_disabled_profile_monitor() {
    let mut profile = profile();
    profile.monitors[0].enabled = false;
    assert!(matches!(build(&profile, &display_config()), Err(Error::ProfileMonitorDisabled(_))));
}

#[test]
fn schema_versions_four_and_five_are_read() {
    assert!(check_schema_version(4).is_ok());
    assert!(check_schema_version(5).is_ok());
    assert!(matches!(check_schema_version(3), Err(Error::UnsupportedSchemaVersion(3))));
    assert!(matches!(check_schema_version(6), Err(Error::UnsupportedSchemaVersion(6))));
}

#[test]
fn profile_transforms_follow_rotation_and_reflection() {
    assert_eq!(default_reflection(), "normal");
    assert_eq!(transform_from_profile("normal", "x").unwrap(), 6);
    assert_eq!(transform_from_profile("right", "y").unwrap(), 5);
    assert_eq!(transform_from_profile("left", "xy").unwrap(), 1);
    assert!(matches!(transform_from_profile("sideways", "normal"), Err(Error::InvalidRotation(_))));
    assert!(matches!(transform_from_profile("left", "z"), Err(Error::InvalidReflection(_))));
}

#[test]
fn transform_names_read_back_for_every_transform() {
    for transform in 0..16u32 {
        let rotation = rotation_from_transform(transform);
        let reflection = reflection_from_transform(transform);
        assert_eq!(transform_from_profile(rotation, reflection).unwrap(), transform & 7);
    }
    assert_eq!((rotation_from_transform(6), reflection_from_transform(6)), ("normal", "x"));
    assert_eq!((rotation_from_transform(7), reflection_from_transform(7)), ("right", "x"));
    assert_eq!((rotation_from_transform(5), reflection_from_transform(5)), ("right", "y"));
}

#[test]
fn rotate_180_turns_any_transform_half_a_turn() {
    assert_eq!(gnome_randr::cli::apply::rotate_180(1), 3);
    assert_eq!(gnome_randr::cli::apply::rotate_180(6), 0);
    assert_eq!(gnome_randr::cli::apply::rotate_180(u32::MAX), 1);
}

#[test]
fn desired_color_defaults_to_no_change() {
    let mut profile = profile();
    profile.monitors[0].software_brightness = None;
    profile.monitors[0].software_gamma = Some(ProfileSoftwareGamma {
        state: "identity".to_string(),
        red: None,
        green: None,
        blue: None,
    });
    let desired = desired_software_color(&profile.monitors[0]).unwrap().unwrap();
    assert_eq!(desired.brightness, Some(1.0f64.to_bits()));
    assert_eq!(desired.filter, BrightnessFilter::Linear);
    assert_eq!(desired.gamma_adjustment, Some(GammaAdjustment::identity()));
}

#[test]
fn desired_color_refuses_unknown_states_and_filters() {
    let mut profile = profile();
    profile.monitors[0].software_brightness.as_mut().unwrap().state = "bogus".to_string();
    match desired_software_color(&profile.monitors[0]).unwrap_err() {
        Error::ParseProfile { path, message } => {
            assert_eq!(path, "<profile>");
            assert_eq!(message, "unsupported software color state bogus");
        }
        error => panic!("unexpected error: {:?}", error),
    }
    let mut profile = self::profile();
    profile.monitors[0].software_brightness.as_mut().unwrap().filter = Some("sharp".to_string());
    match desired_software_color(&profile.monitors[0]).unwrap_err() {
        Error::ParseProfile { message, .. } => assert_eq!(message, "invalid brightness filter: sharp"),
        error => panic!("unexpected error: {:?}", error),
    }
    profile.monitors[0].software_brightness.as_mut().unwrap().state = "unknown".to_string();
    assert!(desired_software_color(&profile.monitors[0]).unwrap().is_none());
}

use gnome_randr::cli::query::{
    monitor_enabled, selected_monitors, validate_options, Error, QueryOptions, QueryView, TextView,
};
use gnome_randr::display_config::{
    DisplayConfig, KnownModeProperties, KnownProperties, LayoutMode, LogicalMonitor, Mode, Monitor,
    PhysicalMonitor,
};

fn options() -> QueryOptions {
    QueryOptions {
        summary: false,
        json: false,
        properties: false,
        verbose: false,
        list_monitors: false,
        list_active_monitors: false,
    }
}

fn physical(connector: &str) -> PhysicalMonitor {
    PhysicalMonitor {
        connector: connector.to_string(),
        vendor: "V".to_string(),
        product: "P".to_string(),
        serial: "S".to_string(),
        modes: vec![Mode {
            id: "1920x1080@60".to_string(),
            width: 1920,
            height: 1080,
            refresh_rate: 60.0f64.to_bits(),
            preferred_scale: 1.0f64.to_bits(),
            supported_scales: vec![1.0f64.to_bits()],
            known_properties: KnownModeProperties { is_current: true, is_preferred: true },
        }],
        color_mode: None,
        supported_color_modes: vec![],
    }
}

fn config() -> DisplayConfig {
    DisplayConfig {
        serial: 1,
        monitors: vec![physical("eDP-1"), physical("HDMI-1")],
        logical_monitors: vec![LogicalMonitor {
            x: 0,
            y: 0,
            scale: 1.0f64.to_bits(),
            transform: 0,
            primary: true,
            monitors: vec![Monitor {
                connector: "eDP-1".to_string(),
                vendor: "V".to_string(),
                product: "P".to_string(),
                serial: "S".to_string(),
            }],
        }],
        known_properties: KnownProperties {
            supports_mirroring: true,
            layout_mode: LayoutMode::Logical,
            supports_changing_layout_mode: false,
            global_scale_required: false,
        },
    }
}

#[test]
fn validate_options_rejects_conflicting_views() {
    let mut opts = options();
    opts.summary = true;
    opts.json = true;
    let error = validate_options(&opts).unwrap_err();
    assert_eq!(error.message(), "fatal: --summary cannot be used with --json.");

    let mut opts = options();
    opts.properties = true;
    opts.list_monitors = true;
    let error = validate_options(&opts).unwrap_err();
    assert_eq!(error.message(), "fatal: --properties cannot be used with --listmonitors.");
}

#[test]
fn validate_options_accepts_verbose_with_properties() {
    let mut opts = options();
    opts.verbose = true;
    opts.properties = true;
    assert!(matches!(validate_options(&opts), Ok(QueryView::Text(TextView::Verbose))));
}

#[test]
fn validate_options_defaults_to_the_default_text_view() {
    assert!(matches!(validate_options(&options()), Ok(QueryView::Text(TextView::Default))));
    let mut opts = options();
    opts.json = true;
    assert!(matches!(validate_options(&opts), Ok(QueryView::Json)));
}

#[test]
fn validate_options_names_the_first_two_views_given() {
    let mut opts = options();
    opts.verbose = true;
    opts.list_active_monitors = true;
    opts.list_monitors = true;
    match validate_options(&opts).unwrap_err() {
        Error::ConflictingOptions { option, conflicting } => {
            assert_eq!(option, "--verbose");
            assert_eq!(conflicting, "--listmonitors");
        }
        error => panic!("unexpected error variant: {:?}", error),
    }
}

#[test]
fn selected_monitors_follow_the_connector() {
    let config = config();
    let all = selected_monitors(None, &config).unwrap();
    assert_eq!(all.logical_monitors, vec![0]);
    assert_eq!(all.physical_monitors, vec![0, 1]);

    let one = selected_monitors(Some("HDMI-1"), &config).unwrap();
    assert_eq!(one.physical_monitors, vec![1]);
    assert!(one.logical_monitors.is_empty());

    let enabled = selected_monitors(Some("eDP-1"), &config).unwrap();
    assert_eq!(enabled.logical_monitors, vec![0]);

    assert!(matches!(selected_monitors(Some("DP-9"), &config), Err(Error::NotFound)));
}

#[test]
fn disabled_connector_is_reported_disabled() {
    let config = config();
    assert!(monitor_enabled(&config, "eDP-1"));
    assert!(!monitor_enabled(&config, "HDMI-1"));
}

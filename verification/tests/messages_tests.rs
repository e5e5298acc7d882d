use gnome_randr::cli::apply::{self, MonitorIdentity};
use gnome_randr::cli::brightness;
use gnome_randr::cli::common::ConnectorError;
use gnome_randr::cli::modify::{self, planner, Position};
use gnome_randr::cli::monitors_xml;
use gnome_randr::cli::query;
use gnome_randr::display_config::proxied_methods::{color_mode_list, ColorMode};
use gnome_randr::display_config::LayoutMode;

fn identity() -> MonitorIdentity {
    MonitorIdentity { vendor: "DEL".to_string(), product: "U2720Q".to_string(), serial: "ABC".to_string() }
}

#[test]
fn connector_error_lists_the_outputs() {
    let error = ConnectorError::Required(vec!["eDP-1".to_string(), "HDMI-1".to_string()]);
    assert_eq!(error.message(), "fatal: please specify an output. Available outputs: eDP-1, HDMI-1");
    assert_eq!(ConnectorError::NoOutputs.message(), "fatal: unable to find output.");
}

#[test]
fn color_modes_are_listed_with_commas() {
    assert_eq!(color_mode_list(&vec![ColorMode::Default, ColorMode::Bt2100]), "default, bt2100");
    assert_eq!(color_mode_list(&vec![]), "");
}

#[test]
fn modify_errors_show_their_numbers_as_given() {
    let error = modify::Error::InvalidScale {
        connector: "eDP-1".to_string(),
        mode: "mode-a".to_string(),
        requested: 1.73f64.to_bits(),
        supported_scales: vec![1.0f64.to_bits(), 1.75f64.to_bits()],
    };
    assert_eq!(error.number_values(), vec![1.73f64.to_bits(), 1.0f64.to_bits(), 1.75f64.to_bits()]);
    let texts = vec!["1.73".to_string(), "1".to_string(), "1.75".to_string()];
    assert_eq!(
        error.message(&texts),
        "fatal: scale 1.73 is not valid for eDP-1 mode mode-a. Run \"gnome-randr query eDP-1\" to see supported scales such as 1, 1.75."
    );
    assert_eq!(
        modify::Error::InvalidBacklight(-5).message(&vec![]),
        "fatal: backlight value -5 is invalid. Use an integer percentage from 0 to 100."
    );
    assert_eq!(
        modify::Error::LayoutModeUnsupported { requested: LayoutMode::Physical, current: LayoutMode::Logical }
            .message(&vec![]),
        "fatal: requested layout mode physical but the current backend does not allow layout-mode changes from logical."
    );
    assert_eq!(
        modify::Error::ConflictingOptions { option: "--off", conflicting: "--mode" }.message(&vec![]),
        "fatal: --off cannot be used with --mode."
    );
}

#[test]
fn apply_errors_name_the_identity() {
    let error = apply::Error::ColorModeUnavailable {
        identity: identity(),
        requested: ColorMode::Bt2100,
        supported: vec![ColorMode::Default],
    };
    assert_eq!(
        error.message(),
        "fatal: DEL U2720Q ABC does not support color mode bt2100. Supported color modes are default."
    );
    assert_eq!(
        apply::Error::UnsupportedSchemaVersion(9).message(),
        "fatal: unsupported profile schema version 9. Supported versions are 4 through 5."
    );
}

#[test]
fn other_errors_have_their_messages() {
    assert_eq!(brightness::Error::CrtcNotFound.message(), "fatal: unable to find CRTC for output.");
    assert_eq!(
        query::Error::ConflictingOptions { option: "--json", conflicting: "--summary" }.message(),
        "fatal: --json cannot be used with --summary."
    );
    assert_eq!(
        planner::Error::ConnectorNotFound("DP-3".to_string()).message(),
        "fatal: planner could not find connector DP-3."
    );
    assert_eq!(
        monitors_xml::Error::MissingMode { connector: "DP-1".to_string(), mode_id: "m".to_string() }.message(),
        "fatal: monitors.xml writer could not find mode m for DP-1."
    );
    assert_eq!(Position { x: -1920, y: 0 }.to_text(), "-1920,0");
}

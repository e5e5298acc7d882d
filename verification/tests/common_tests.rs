use gnome_randr::cli::common::{
    match_supported_scale, parse_position, parse_resolution, resolve_connector, ConnectorError,
};

fn distances(requested: f64, supported: &[f64]) -> Vec<u64> {
    supported.iter().map(|scale| (*scale - requested).abs().to_bits()).collect()
}

fn bits(values: &[f64]) -> Vec<u64> {
    values.iter().map(|value| value.to_bits()).collect()
}

fn matched(requested: f64, supported: &[f64]) -> Option<f64> {
    match_supported_scale(requested.to_bits(), &bits(supported), &distances(requested, supported))
        .map(f64::from_bits)
}

#[test]
fn connector_defaults_when_only_one_output_exists() {
    let connector = resolve_connector(None, &["HDMI-1"]).unwrap();
    assert_eq!(connector, "HDMI-1");
}

#[test]
fn connector_errors_when_multiple_outputs_exist() {
    let error = resolve_connector(None, &["HDMI-1", "DP-1"]).unwrap_err();
    match error {
        ConnectorError::Required(connectors) => {
            assert_eq!(connectors, vec!["HDMI-1", "DP-1"])
        }
        _ => panic!("unexpected error variant"),
    }
}

#[test]
fn connector_given_is_taken_as_is() {
    assert_eq!(resolve_connector(Some("DP-3"), &["HDMI-1", "DP-1"]).unwrap(), "DP-3");
}

#[test]
fn connector_errors_without_outputs() {
    assert!(matches!(resolve_connector(None, &[]), Err(ConnectorError::NoOutputs)));
}

#[test]
fn resolution_parser_accepts_width_x_height() {
    assert_eq!(parse_resolution("1920x1080"), Some((1920, 1080)));
    assert_eq!(parse_resolution("1920xfoo"), None);
    assert_eq!(parse_resolution("1920"), None);
}

#[test]
fn position_parser_accepts_comma_and_x_forms() {
    assert_eq!(parse_position("100,200"), Some((100, 200)));
    assert_eq!(parse_position("-1920x0"), Some((-1920, 0)));
    assert_eq!(parse_position("100xfoo"), None);
}

#[test]
fn position_parser_splits_at_the_last_x_and_accepts_upper_case() {
    assert_eq!(parse_position("10X20"), Some((10, 20)));
    assert_eq!(parse_position("+5,-7"), Some((5, -7)));
    assert_eq!(parse_position("1x2x3"), None);
}

#[test]
fn supported_scale_match_prefers_exact_match() {
    let matched = matched(1.75, &[1.0, 1.75, 1.7518248]).unwrap();
    assert_eq!(matched, 1.75);
}

#[test]
fn supported_scale_match_accepts_displayed_value_within_tolerance() {
    let matched = matched(1.75, &[1.0, 1.7518248, 2.0]).unwrap();
    assert_eq!(matched, 1.7518248);
}

#[test]
fn supported_scale_match_rejects_values_outside_tolerance() {
    let matched = matched(1.75, &[1.0, 1.76, 2.0]);
    assert_eq!(matched, None);
}

#[test]
fn supported_scale_match_takes_the_nearest_within_tolerance() {
    assert_eq!(matched(1.5, &[1.504, 1.501, 1.499]), Some(1.501));
}

use gnome_randr::cli::brightness::{gamma_adjustment_from, gamma_components};
use gnome_randr::display_config::proxied_methods::{
    BrightnessFilter, ColorMode, Gamma, GammaAdjustment, PowerSaveMode,
};
use gnome_randr::display_config::LayoutMode;

#[test]
fn identity_gamma_is_detected() {
    let gamma = Gamma {
        red: vec![0, 32768, 65535],
        green: vec![0, 32768, 65535],
        blue: vec![0, 32768, 65535],
    };

    assert!(gamma.is_identity());
}

#[test]
fn full_identity_ramp_is_detected() {
    let size = 256usize;
    let channel = (0..size)
        .map(|index| ((index as f64 / (size - 1) as f64) * 65535.0).round() as u16)
        .collect::<Vec<u16>>();
    let gamma = Gamma { red: channel.clone(), green: channel.clone(), blue: channel };

    assert!(gamma.is_identity());
}

#[test]
fn gamma_adjustment_identity_is_within_epsilon_of_one() {
    assert!(GammaAdjustment::identity().is_identity());
    let nearly = GammaAdjustment {
        red: (1.0 + f64::EPSILON).to_bits(),
        green: 1.0f64.to_bits(),
        blue: (1.0 - f64::EPSILON).to_bits(),
    };
    assert!(nearly.is_identity());
    let off = GammaAdjustment { red: 1.1f64.to_bits(), green: 1.0f64.to_bits(), blue: 1.0f64.to_bits() };
    assert!(!off.is_identity());
}

#[test]
fn ramps_off_by_more_than_one_are_not_identity() {
    let gamma = Gamma { red: vec![0, 32769, 65535], green: vec![0, 32768, 65535], blue: vec![0, 32767, 65535] };
    assert!(gamma.is_identity());
    let far = Gamma { red: vec![0, 32770, 65535], green: vec![0, 32768, 65535], blue: vec![0, 32767, 65535] };
    assert!(!far.is_identity());
    assert!(gamma.approx_eq(&far));
    let short = Gamma { red: vec![0, 65535], green: vec![0, 65535], blue: vec![0, 65535] };
    assert!(!gamma.approx_eq(&short));
}

#[test]
fn enum_names_and_values_read_back() {
    for mode in [PowerSaveMode::Unknown, PowerSaveMode::On, PowerSaveMode::Standby, PowerSaveMode::Suspend, PowerSaveMode::Off] {
        assert_eq!(PowerSaveMode::from_raw(mode.raw_value()), Some(mode));
    }
    for mode in [ColorMode::Default, ColorMode::Bt2100] {
        assert_eq!(ColorMode::from_raw(mode.raw_value()), Some(mode));
        assert_eq!(ColorMode::from_name(mode.as_str()), Some(mode));
    }
    for filter in [BrightnessFilter::Linear, BrightnessFilter::Gamma, BrightnessFilter::Filmic] {
        assert_eq!(BrightnessFilter::from_name(filter.as_str()), Some(filter));
    }
    for mode in [LayoutMode::Logical, LayoutMode::Physical] {
        assert_eq!(LayoutMode::from_raw(mode.raw_value()), Some(mode));
        assert_eq!(LayoutMode::from_name(mode.as_str()), Some(mode));
    }
    assert_eq!(ColorMode::from_raw(7), None);
    assert_eq!(PowerSaveMode::from_name("off"), Some(PowerSaveMode::Off));
}

fn gamma_option(value: &str) -> Result<GammaAdjustment, String> {
    let numbers: Vec<Option<u64>> = gamma_components(value)
        .iter()
        .map(|component| component.parse::<f64>().ok().map(f64::to_bits))
        .collect();
    gamma_adjustment_from(value, &numbers)
}

#[test]
fn gamma_option_reads_one_or_three_components() {
    assert_eq!(gamma_components("1.1:1.0:0.9"), vec!["1.1", "1.0", "0.9"]);
    assert_eq!(
        gamma_option("1.1"),
        Ok(GammaAdjustment { red: 1.1f64.to_bits(), green: 1.1f64.to_bits(), blue: 1.1f64.to_bits() })
    );
    assert_eq!(
        gamma_option("1.1:1.0:0.9"),
        Ok(GammaAdjustment { red: 1.1f64.to_bits(), green: 1.0f64.to_bits(), blue: 0.9f64.to_bits() })
    );
    assert_eq!(gamma_option("1:0:1"), Err("invalid gamma value: 0".to_string()));
    assert_eq!(gamma_option("abc"), Err("invalid gamma value: abc".to_string()));
    assert_eq!(gamma_option("1:inf:1"), Err("invalid gamma value: inf".to_string()));
    assert_eq!(
        gamma_option("1:2"),
        Err("invalid gamma value: 1:2. Use R or R:G:B, for example 1 or 1.1:1.0:0.9".to_string())
    );
}

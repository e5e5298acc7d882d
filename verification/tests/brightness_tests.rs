use gnome_randr::cli::brightness::{
    color_announcements, current_color, find_crtc, find_output, matching_state, parse_channel, parse_filter,
    parse_saved_record, resolve_base_gamma, serialize_channel, state_file, validate_color_request,
    CurrentColor, CurrentColorState, Error, SavedColorState,
};
use gnome_randr::display_config::proxied_methods::{BrightnessFilter, Gamma, GammaAdjustment};
use gnome_randr::display_config::resources::{Crtc, Output, Resources};

fn gamma(red: f64, green: f64, blue: f64) -> GammaAdjustment {
    GammaAdjustment { red: red.to_bits(), green: green.to_bits(), blue: blue.to_bits() }
}

fn read(contents: &str) -> Option<SavedColorState> {
    let record = parse_saved_record(contents)?;
    let brightness = record.brightness.parse::<f64>().ok()?;
    let value = |text: &Option<String>| {
        text.as_ref().and_then(|t| t.parse::<f64>().ok()).map(f64::to_bits)
    };
    let (red, green, blue) = (value(&record.gamma_red), value(&record.gamma_green), value(&record.gamma_blue));
    Some(SavedColorState::from_record(record, brightness.to_bits(), red, green, blue))
}

fn write(state: &SavedColorState) -> String {
    let text = |bits: u64| format!("{}", f64::from_bits(bits));
    state.serialize(
        &text(state.brightness),
        &text(state.gamma_adjustment.red),
        &text(state.gamma_adjustment.green),
        &text(state.gamma_adjustment.blue),
    )
}

#[test]
fn color_state_roundtrip() {
    let state = SavedColorState {
        brightness: 0.75f64.to_bits(),
        filter: BrightnessFilter::Filmic,
        gamma_adjustment: gamma(1.1, 1.0, 0.9),
        base_gamma: Gamma {
            red: vec![0, 1000, 2000],
            green: vec![0, 900, 1800],
            blue: vec![0, 800, 1600],
        },
    };

    let parsed = read(&write(&state)).unwrap();

    assert!((f64::from_bits(parsed.brightness) - 0.75).abs() < f64::EPSILON);
    assert_eq!(parsed.filter, BrightnessFilter::Filmic);
    assert_eq!(parsed.gamma_adjustment, state.gamma_adjustment);
    assert_eq!(parsed.base_gamma.red, state.base_gamma.red);
    assert_eq!(parsed.base_gamma.green, state.base_gamma.green);
    assert_eq!(parsed.base_gamma.blue, state.base_gamma.blue);
}

#[test]
fn old_brightness_state_defaults_gamma_to_identity() {
    let parsed = read("brightness=0.5\nfilter=linear\nred=0,1000\ngreen=0,1000\nblue=0,1000\n").unwrap();

    assert_eq!(parsed.gamma_adjustment, GammaAdjustment::identity());
}

#[test]
fn parse_channel_supports_empty_channels() {
    assert_eq!(parse_channel(""), Some(Vec::new()));
}

#[test]
fn channels_read_back_from_their_text() {
    assert_eq!(serialize_channel(&vec![0, 1000, 65535]), "0,1000,65535");
    assert_eq!(parse_channel("0,1000,65535"), Some(vec![0, 1000, 65535]));
    assert_eq!(parse_channel("+7"), Some(vec![7]));
    assert_eq!(parse_channel("1,,2"), None);
    assert_eq!(parse_channel("65536"), None);
    assert_eq!(parse_channel(&serialize_channel(&vec![])), Some(vec![]));
}

#[test]
fn saved_records_need_brightness_and_channels() {
    assert!(parse_saved_record("filter=linear\nbase-red=1\nbase-green=1\nbase-blue=1\n").is_none());
    assert!(parse_saved_record("brightness=1\nbase-red=1\nbase-green=1\n").is_none());
    assert!(parse_saved_record("brightness=1\nnot a line\nbase-red=1\nbase-green=1\nbase-blue=1\n").is_none());
    let record = parse_saved_record("brightness=2\r\nbase-red=1\nred=5\nbase-green=2\nblue=3\nfilter=bogus\n").unwrap();
    assert_eq!(record.brightness, "2");
    assert_eq!(record.filter, BrightnessFilter::Linear);
    assert_eq!(record.base_gamma.red, vec![1]);
    assert_eq!(record.base_gamma.green, vec![2]);
    assert_eq!(record.base_gamma.blue, vec![3]);
    assert!(record.gamma_red.is_none());
}

#[test]
fn saved_baseline_is_reused_when_current_gamma_matches_saved_color_state() {
    let base = Gamma {
        red: vec![0, 1000, 2000],
        green: vec![0, 1200, 2400],
        blue: vec![0, 1400, 2800],
    };
    let state = SavedColorState {
        brightness: 2.0f64.to_bits(),
        filter: BrightnessFilter::Filmic,
        gamma_adjustment: gamma(1.1, 1.0, 0.9),
        base_gamma: Gamma { red: base.red.clone(), green: base.green.clone(), blue: base.blue.clone() },
    };
    let current = Gamma {
        red: vec![0, 2150, 4300],
        green: vec![0, 2500, 5000],
        blue: vec![0, 2800, 5600],
    };
    let applied = Gamma { red: current.red.clone(), green: current.green.clone(), blue: current.blue.clone() };
    let resolved = resolve_base_gamma(&current, Some(&state), Some(&applied));

    assert!(resolved.approx_eq(&base));

    let elsewhere = Gamma { red: vec![0, 1, 2], green: vec![0, 1, 2], blue: vec![0, 1, 2] };
    assert!(resolve_base_gamma(&elsewhere, Some(&state), Some(&applied)).approx_eq(&elsewhere));
}

#[test]
fn matching_state_reports_saved_gamma_and_brightness() {
    let state = SavedColorState {
        brightness: 1.5f64.to_bits(),
        filter: BrightnessFilter::Gamma,
        gamma_adjustment: gamma(1.2, 1.1, 1.0),
        base_gamma: Gamma {
            red: vec![0, 1000, 2000],
            green: vec![0, 1000, 2000],
            blue: vec![0, 1000, 2000],
        },
    };

    let current = Gamma { red: vec![0, 1500, 3000], green: vec![0, 1400, 2800], blue: vec![0, 1300, 2600] };
    let applied = Gamma { red: current.red.clone(), green: current.green.clone(), blue: current.blue.clone() };

    assert_eq!(
        matching_state(&current, Some(&state), Some(&applied)),
        Some(CurrentColor {
            state: CurrentColorState::Managed,
            brightness: Some(1.5f64.to_bits()),
            filter: Some(BrightnessFilter::Gamma),
            gamma_adjustment: Some(gamma(1.2, 1.1, 1.0)),
        })
    );
}

#[test]
fn current_color_falls_back_to_identity_then_unknown() {
    let identity = Gamma { red: vec![0, 65535], green: vec![0, 65535], blue: vec![0, 65535] };
    assert_eq!(current_color(&identity, None, None), CurrentColor::identity());
    let dimmed = Gamma { red: vec![0, 30000], green: vec![0, 30000], blue: vec![0, 30000] };
    assert_eq!(current_color(&dimmed, None, None), CurrentColor::unknown());
}

#[test]
fn state_files_are_named_after_the_connector() {
    assert_eq!(state_file("eDP-1"), "brightness-eDP-1.state");
    assert_eq!(state_file("a/b c"), "brightness-a_b_c.state");
}

#[test]
fn color_requests_are_checked() {
    assert_eq!(validate_color_request(None, None), Ok((1.0f64.to_bits(), GammaAdjustment::identity())));
    assert_eq!(validate_color_request(Some((-0.5f64).to_bits()), None), Err(Error::InvalidBrightness));
    assert_eq!(validate_color_request(Some(f64::INFINITY.to_bits()), None), Err(Error::InvalidBrightness));
    assert_eq!(validate_color_request(Some((-0.0f64).to_bits()), None).is_ok(), true);
    assert_eq!(validate_color_request(None, Some(gamma(1.0, 0.0, 1.0))), Err(Error::InvalidGamma));
    assert_eq!(validate_color_request(None, Some(gamma(1.0, f64::NAN, 1.0))), Err(Error::InvalidGamma));
    assert_eq!(color_announcements(1.0f64.to_bits(), BrightnessFilter::Linear, GammaAdjustment::identity()), (false, false));
    assert_eq!(color_announcements(0.5f64.to_bits(), BrightnessFilter::Linear, gamma(1.0, 1.1, 1.0)), (true, true));
}

fn resources(current_crtc: i32) -> Resources {
    Resources {
        serial: 1,
        crtcs: vec![Crtc {
            id: 7,
            winsys_id: 7,
            x: 0,
            y: 0,
            width: 1920,
            height: 1080,
            current_mode: 0,
            current_transform: 0,
            transforms: vec![0],
        }],
        outputs: vec![Output {
            id: 1,
            winsys_id: 1,
            current_crtc,
            possible_crtcs: vec![7],
            name: "eDP-1".to_string(),
            modes: vec![],
            clones: vec![],
        }],
        modes: vec![],
        max_screen_width: 8192,
        max_screen_height: 8192,
    }
}

#[test]
fn outputs_and_crtcs_are_found() {
    let r = resources(7);
    assert_eq!(find_crtc(&r, find_output(&r, "eDP-1").unwrap()).unwrap().id, 7);
    assert_eq!(find_output(&r, "HDMI-1").err(), Some(Error::NotFound));
    let off = resources(-1);
    assert_eq!(find_crtc(&off, &off.outputs[0]).err(), Some(Error::OutputDisabled));
    let lost = resources(9);
    assert_eq!(find_crtc(&lost, &lost.outputs[0]).err(), Some(Error::CrtcNotFound));
}

#[test]
fn saved_record_reads_back_the_texts_it_was_written_with() {
    let state = SavedColorState {
        brightness: 1.0f64.to_bits(),
        filter: BrightnessFilter::Gamma,
        gamma_adjustment: GammaAdjustment::identity(),
        base_gamma: Gamma { red: vec![65535], green: vec![], blue: vec![0, 7] },
    };
    let record = parse_saved_record(&state.serialize("0.5", "a=b", "", "1e3\rx")).unwrap();
    assert_eq!(record.brightness, "0.5");
    assert_eq!(record.filter, BrightnessFilter::Gamma);
    assert_eq!(record.gamma_red.as_deref(), Some("a=b"));
    assert_eq!(record.gamma_green.as_deref(), Some(""));
    assert_eq!(record.gamma_blue.as_deref(), Some("1e3\rx"));
    assert_eq!(record.base_gamma.red, vec![65535]);
    assert_eq!(record.base_gamma.green, Vec::<u16>::new());
    assert_eq!(record.base_gamma.blue, vec![0, 7]);
}

#[test]
fn filters_parse_by_name() {
    assert_eq!(parse_filter("filmic"), Ok(BrightnessFilter::Filmic));
    assert_eq!(parse_filter("Linear"), Err("invalid brightness filter: Linear".to_string()));
}

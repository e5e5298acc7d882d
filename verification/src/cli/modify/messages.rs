//! What `modify`'s errors say to the user.

use vstd::prelude::*;

use crate::cli::modify::Error;
use crate::display_config::proxied_methods::{color_mode_list, color_mode_names};
use crate::text::{join_texts, push_joined, push_signed_decimal, push_str, signed_decimal, string_views};

verus! {

impl Error {
    /// The `f64` values that the error holds, as bit patterns, in the order
    /// its message shows them: a luminance, or a scale and then the scales
    /// that the mode supports.
    pub open spec fn numbers(&self) -> Seq<u64> {
        match self {
            Error::InvalidLuminance(value) => seq![*value],
            Error::InvalidScale { requested, supported_scales, .. } => seq![*requested] + supported_scales@,
            _ => Seq::empty(),
        }
    }

    pub fn number_values(&self) -> (r: Vec<u64>)
        ensures
            r@ == self.numbers(),
    {
        match self {
            Error::InvalidLuminance(value) => vec![*value],
            Error::InvalidScale { requested, supported_scales, .. } => {
                let mut r = vec![*requested];
                let mut i: usize = 0;
                while i < supported_scales.len()
                    invariant
                        0 <= i <= supported_scales@.len(),
                        r@ == seq![*requested] + supported_scales@.take(i as int),
                    decreases supported_scales@.len() - i,
                {
                    r.push(supported_scales[i]);
                    assert(supported_scales@.take(i + 1) =~= supported_scales@.take(i as int).push(supported_scales@[i as int]));
                    i = i + 1;
                }
                assert(supported_scales@.take(supported_scales@.len() as int) =~= supported_scales@);
                r
            },
            _ => Vec::new(),
        }
    }

    /// What the error says to the user, given the text of each of its
    /// numbers (see `numbers`).
    pub open spec fn message_text(&self, texts: Seq<Seq<char>>) -> Seq<char> {
        match self {
            Error::NotFound => "fatal: unable to find output."@,
            Error::OutputDisabled { connector } => "fatal: "@ + connector@
                + " is currently disabled. Re-enabling outputs is not part of this command yet; run \"gnome-randr query\" to inspect the current layout."@,
            Error::ReferenceOutputDisabled { connector } => "fatal: "@ + connector@
                + " is currently disabled, so it cannot be used as a mirroring reference. Run \"gnome-randr query\" to inspect the active layout."@,
            Error::CloneWithSelf { connector } => "fatal: "@ + connector@
                + " cannot mirror itself. Choose a different output for --same-as."@,
            Error::CloneNotSupported { connector, reference } => "fatal: local clone preflight says "@
                + connector@ + " cannot mirror "@ + reference@ + " with the current Mutter resource model."@,
            Error::CloneCrtcNotShared { connector, reference } => "fatal: local clone preflight says "@
                + connector@ + " and "@ + reference@
                + " do not share a possible CRTC, so the mirror request is obviously impossible."@,
            Error::CloneModeUnavailable { connector, reference, mode } => "fatal: "@ + connector@
                + " cannot mirror "@ + reference@ + " because it has no compatible mode for "@ + mode@
                + ". Run \"gnome-randr query "@ + connector@ + "\" and \"gnome-randr query "@ + reference@
                + "\" to compare the available modes."@,
            Error::ColorModeUnsupported { connector } => "fatal: "@ + connector@
                + " does not expose writable color modes through Mutter. Run \"gnome-randr query "@
                + connector@ + " --properties\" to inspect the available monitor properties."@,
            Error::ColorModeUnavailable { connector, requested, supported } => "fatal: "@ + connector@
                + " cannot use color mode "@ + requested.spec_name() + ". Supported color modes are "@
                + join_texts(color_mode_names(supported@), ", "@) + "."@,
            Error::LayoutModeUnsupported { requested, current } => "fatal: requested layout mode "@
                + requested.spec_name() + " but the current backend does not allow layout-mode changes from "@
                + current.spec_name() + "."@,
            Error::PowerSaveUnsupported => "fatal: current GNOME/Mutter backend reports power-save mode as unsupported."@,
            Error::BacklightUnsupported { connector } => "fatal: "@ + connector@
                + " does not expose native backlight control through Mutter."@,
            Error::InvalidBacklight(value) => "fatal: backlight value "@ + signed_decimal(*value as int)
                + " is invalid. Use an integer percentage from 0 to 100."@,
            Error::LuminanceUnsupported { connector } => "fatal: "@ + connector@
                + " does not expose native luminance preferences through Mutter."@,
            Error::InvalidLuminance(_) => "fatal: luminance value "@ + texts[0]
                + " is invalid. Use a percentage from 0 to 100."@,
            Error::MutterRejectedClone { connector, reference, details } => "fatal: Mutter rejected mirroring "@
                + connector@ + " same-as "@ + reference@ + ": "@ + details@
                + ". Partial mirroring is still limited by GNOME's DisplayConfig validation rules."@,
            Error::ModeNotFound { connector, mode } => "fatal: mode or resolution \""@ + mode@
                + "\" is not available on "@ + connector@ + ". Run \"gnome-randr query "@ + connector@
                + "\" to list valid mode ids."@,
            Error::PreferredModeNotFound { connector } => "fatal: "@ + connector@
                + " does not advertise a preferred mode. Run \"gnome-randr query "@ + connector@
                + "\" to inspect the available modes."@,
            Error::AutoModeNotFound { connector } => "fatal: unable to choose an automatic mode for "@
                + connector@ + ". Run \"gnome-randr query "@ + connector@
                + "\" to inspect the available modes."@,
            Error::CurrentModeNotFound { connector, option } => "fatal: unable to determine the current mode for "@
                + connector@ + " while resolving "@ + option@ + ". Run \"gnome-randr query "@ + connector@
                + "\" and specify --mode explicitly."@,
            Error::InvalidScale { connector, mode, .. } => "fatal: scale "@ + texts[0] + " is not valid for "@
                + connector@ + " mode "@ + mode@ + ". Run \"gnome-randr query "@ + connector@
                + "\" to see supported scales such as "@ + join_texts(texts.skip(1), ", "@) + "."@,
            Error::RefreshWithExactMode { mode } => "fatal: --refresh cannot be combined with the exact mode id \""@
                + mode@ + "\". Use just --mode "@ + mode@ + ", or use --mode WIDTHxHEIGHT with --refresh HZ."@,
            Error::ConflictingOptions { option, conflicting } => "fatal: "@ + option@
                + " cannot be used with "@ + conflicting@ + "."@,
        }
    }

    pub fn message(&self, number_texts: &Vec<String>) -> (r: String)
        requires
            number_texts@.len() == self.numbers().len(),
        ensures
            r@ == self.message_text(string_views(number_texts@)),
    {
        let mut r: String;
        match self {
            Error::NotFound => {
                r = "fatal: unable to find output.".to_owned();
            },
            Error::OutputDisabled { connector } => {
                r = "fatal: ".to_owned();
                push_str(&mut r, connector.as_str());
                push_str(&mut r, " is currently disabled. Re-enabling outputs is not part of this command yet; run \"gnome-randr query\" to inspect the current layout.");
            },
            Error::ReferenceOutputDisabled { connector } => {
                r = "fatal: ".to_owned();
                push_str(&mut r, connector.as_str());
                push_str(&mut r, " is currently disabled, so it cannot be used as a mirroring reference. Run \"gnome-randr query\" to inspect the active layout.");
            },
            Error::CloneWithSelf { connector } => {
                r = "fatal: ".to_owned();
                push_str(&mut r, connector.as_str());
                push_str(&mut r, " cannot mirror itself. Choose a different output for --same-as.");
            },
            Error::CloneNotSupported { connector, reference } => {
                r = "fatal: local clone preflight says ".to_owned();
                push_str(&mut r, connector.as_str());
                push_str(&mut r, " cannot mirror ");
                push_str(&mut r, reference.as_str());
                push_str(&mut r, " with the current Mutter resource model.");
            },
            Error::CloneCrtcNotShared { connector, reference } => {
                r = "fatal: local clone preflight says ".to_owned();
                push_str(&mut r, connector.as_str());
                push_str(&mut r, " and ");
                push_str(&mut r, reference.as_str());
                push_str(&mut r, " do not share a possible CRTC, so the mirror request is obviously impossible.");
            },
            Error::CloneModeUnavailable { connector, reference, mode } => {
                r = "fatal: ".to_owned();
                push_str(&mut r, connector.as_str());
                push_str(&mut r, " cannot mirror ");
                push_str(&mut r, reference.as_str());
                push_str(&mut r, " because it has no compatible mode for ");
                push_str(&mut r, mode.as_str());
                push_str(&mut r, ". Run \"gnome-randr query ");
                push_str(&mut r, connector.as_str());
                push_str(&mut r, "\" and \"gnome-randr query ");
                push_str(&mut r, reference.as_str());
                push_str(&mut r, "\" to compare the available modes.");
            },
            Error::ColorModeUnsupported { connector } => {
                r = "fatal: ".to_owned();
                push_str(&mut r, connector.as_str());
                push_str(&mut r, " does not expose writable color modes through Mutter. Run \"gnome-randr query ");
                push_str(&mut r, connector.as_str());
                push_str(&mut r, " --properties\" to inspect the available monitor properties.");
            },
            Error::ColorModeUnavailable { connector, requested, supported } => {
                r = "fatal: ".to_owned();
                push_str(&mut r, connector.as_str());
                push_str(&mut r, " cannot use color mode ");
                push_str(&mut r, requested.as_str());
                push_str(&mut r, ". Supported color modes are ");
                push_str(&mut r, color_mode_list(supported).as_str());
                push_str(&mut r, ".");
            },
            Error::LayoutModeUnsupported { requested, current } => {
                r = "fatal: requested layout mode ".to_owned();
                push_str(&mut r, requested.as_str());
                push_str(&mut r, " but the current backend does not allow layout-mode changes from ");
                push_str(&mut r, current.as_str());
                push_str(&mut r, ".");
            },
            Error::PowerSaveUnsupported => {
                r = "fatal: current GNOME/Mutter backend reports power-save mode as unsupported.".to_owned();
            },
            Error::BacklightUnsupported { connector } => {
                r = "fatal: ".to_owned();
                push_str(&mut r, connector.as_str());
                push_str(&mut r, " does not expose native backlight control through Mutter.");
            },
            Error::InvalidBacklight(value) => {
                r = "fatal: backlight value ".to_owned();
                push_signed_decimal(&mut r, *value as i64);
                push_str(&mut r, " is invalid. Use an integer percentage from 0 to 100.");
            },
            Error::LuminanceUnsupported { connector } => {
                r = "fatal: ".to_owned();
                push_str(&mut r, connector.as_str());
                push_str(&mut r, " does not expose native luminance preferences through Mutter.");
            },
            Error::InvalidLuminance(_) => {
                r = "fatal: luminance value ".to_owned();
                push_str(&mut r, number_texts[0].as_str());
                push_str(&mut r, " is invalid. Use a percentage from 0 to 100.");
            },
            Error::MutterRejectedClone { connector, reference, details } => {
                r = "fatal: Mutter rejected mirroring ".to_owned();
                push_str(&mut r, connector.as_str());
                push_str(&mut r, " same-as ");
                push_str(&mut r, reference.as_str());
                push_str(&mut r, ": ");
                push_str(&mut r, details.as_str());
                push_str(&mut r, ". Partial mirroring is still limited by GNOME's DisplayConfig validation rules.");
            },
            Error::ModeNotFound { connector, mode } => {
                r = "fatal: mode or resolution \"".to_owned();
                push_str(&mut r, mode.as_str());
                push_str(&mut r, "\" is not available on ");
                push_str(&mut r, connector.as_str());
                push_str(&mut r, ". Run \"gnome-randr query ");
                push_str(&mut r, connector.as_str());
                push_str(&mut r, "\" to list valid mode ids.");
            },
            Error::PreferredModeNotFound { connector } => {
                r = "fatal: ".to_owned();
                push_str(&mut r, connector.as_str());
                push_str(&mut r, " does not advertise a preferred mode. Run \"gnome-randr query ");
                push_str(&mut r, connector.as_str());
                push_str(&mut r, "\" to inspect the available modes.");
            },
            Error::AutoModeNotFound { connector } => {
                r = "fatal: unable to choose an automatic mode for ".to_owned();
                push_str(&mut r, connector.as_str());
                push_str(&mut r, ". Run \"gnome-randr query ");
                push_str(&mut r, connector.as_str());
                push_str(&mut r, "\" to inspect the available modes.");
            },
            Error::CurrentModeNotFound { connector, option } => {
                r = "fatal: unable to determine the current mode for ".to_owned();
                push_str(&mut r, connector.as_str());
                push_str(&mut r, " while resolving ");
                push_str(&mut r, option);
                push_str(&mut r, ". Run \"gnome-randr query ");
                push_str(&mut r, connector.as_str());
                push_str(&mut r, "\" and specify --mode explicitly.");
            },
            Error::InvalidScale { connector, mode, .. } => {
                r = "fatal: scale ".to_owned();
                push_str(&mut r, number_texts[0].as_str());
                push_str(&mut r, " is not valid for ");
                push_str(&mut r, connector.as_str());
                push_str(&mut r, " mode ");
                push_str(&mut r, mode.as_str());
                push_str(&mut r, ". Run \"gnome-randr query ");
                push_str(&mut r, connector.as_str());
                push_str(&mut r, "\" to see supported scales such as ");
                push_rest(&mut r, number_texts);
                push_str(&mut r, ".");
            },
            Error::RefreshWithExactMode { mode } => {
                r = "fatal: --refresh cannot be combined with the exact mode id \"".to_owned();
                push_str(&mut r, mode.as_str());
                push_str(&mut r, "\". Use just --mode ");
                push_str(&mut r, mode.as_str());
                push_str(&mut r, ", or use --mode WIDTHxHEIGHT with --refresh HZ.");
            },
            Error::ConflictingOptions { option, conflicting } => {
                r = "fatal: ".to_owned();
                push_str(&mut r, option);
                push_str(&mut r, " cannot be used with ");
                push_str(&mut r, conflicting);
                push_str(&mut r, ".");
            },
        }
        r
    }
}

/// Appends every text but the first, joined with commas.
fn push_rest(r: &mut String, texts: &Vec<String>)
    requires
        texts@.len() >= 1,
    ensures
        final(r)@ == old(r)@ + join_texts(string_views(texts@).skip(1), ", "@),
{
    let mut rest: Vec<String> = Vec::new();
    let mut i: usize = 1;
    while i < texts.len()
        invariant
            1 <= i <= texts@.len(),
            string_views(rest@) =~= string_views(texts@).skip(1).take(i - 1),
        decreases texts@.len() - i,
    {
        let ghost before = rest@;
        rest.push(texts[i].clone());
        assert(string_views(rest@) =~= string_views(before).push(texts@[i as int]@));
        assert(string_views(texts@).skip(1).take(i as int) =~= string_views(texts@).skip(1).take(i - 1).push(
            texts@[i as int]@,
        ));
        i = i + 1;
    }
    assert(string_views(texts@).skip(1).take(texts@.len() - 1) =~= string_views(texts@).skip(1));
    push_joined(r, &rest, ", ");
}

} // verus!

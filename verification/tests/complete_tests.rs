use gnome_randr::cli::complete::{
    completion_request, needs_display, parse_context, CompletionKind, CompletionRequest, ParsedContext,
    PendingValue,
};

fn words(values: &[&str]) -> Vec<String> {
    values.iter().map(|value| value.to_string()).collect()
}

#[test]
fn parse_context_tracks_connector_and_pending_value() {
    assert_eq!(
        parse_context(&words(&["eDP-1", "--mode"]), "modify"),
        ParsedContext {
            connector: Some("eDP-1".to_string()),
            pending_value: Some(PendingValue::Mode),
        }
    );
}

#[test]
fn query_completes_connector_after_flags() {
    assert_eq!(
        completion_request(&words(&["query", "--summary"]), "e"),
        Some(CompletionRequest {
            kind: CompletionKind::Connector,
            current: "e".to_string(),
            prefix: String::new(),
        })
    );
}

#[test]
fn empty_positional_does_not_hide_static_completion() {
    assert_eq!(completion_request(&words(&["modify"]), ""), None);
    assert_eq!(completion_request(&words(&["query"]), ""), None);
}

#[test]
fn modify_completes_mode_values_for_selected_connector() {
    assert_eq!(
        completion_request(&words(&["modify", "eDP-1", "--mode"]), ""),
        Some(CompletionRequest {
            kind: CompletionKind::Mode {
                connector: Some("eDP-1".to_string()),
            },
            current: String::new(),
            prefix: String::new(),
        })
    );
}

#[test]
fn modify_completes_scale_values_without_connector() {
    assert_eq!(
        completion_request(&words(&["modify", "--scale"]), ""),
        Some(CompletionRequest {
            kind: CompletionKind::Scale { connector: None },
            current: String::new(),
            prefix: String::new(),
        })
    );
}

#[test]
fn modify_completes_brightness_values() {
    assert_eq!(
        completion_request(&words(&["modify", "--brightness"]), ""),
        Some(CompletionRequest {
            kind: CompletionKind::Brightness,
            current: String::new(),
            prefix: String::new(),
        })
    );
}

#[test]
fn modify_completes_filter_values() {
    assert_eq!(
        completion_request(&words(&["modify", "--filter"]), ""),
        Some(CompletionRequest {
            kind: CompletionKind::Filter,
            current: String::new(),
            prefix: String::new(),
        })
    );
}

#[test]
fn options_do_not_trigger_dynamic_connector_completion() {
    assert_eq!(completion_request(&words(&["modify"]), "--"), None);
}

#[test]
fn long_option_equals_form_is_completed() {
    assert_eq!(
        completion_request(&words(&["modify"]), "--brightness=1"),
        Some(CompletionRequest {
            kind: CompletionKind::Brightness,
            current: "1".to_string(),
            prefix: "--brightness=".to_string(),
        })
    );

    assert_eq!(
        completion_request(&words(&["modify"]), "--filter=g"),
        Some(CompletionRequest {
            kind: CompletionKind::Filter,
            current: "g".to_string(),
            prefix: "--filter=".to_string(),
        })
    );
}

#[test]
fn only_connector_mode_and_scale_completion_read_the_display() {
    assert!(needs_display(&CompletionKind::Connector));
    assert!(needs_display(&CompletionKind::Mode { connector: None }));
    assert!(needs_display(&CompletionKind::Scale { connector: Some("eDP-1".to_string()) }));
    assert!(!needs_display(&CompletionKind::Rotate));
    assert!(!needs_display(&CompletionKind::Brightness));
    assert!(!needs_display(&CompletionKind::Filter));
}

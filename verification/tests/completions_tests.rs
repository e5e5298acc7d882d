use gnome_randr::cli::completions::{
    augment_bash, augment_fish, augment_zsh, bash_command_root, replace_first_str, BIN_NAME,
};

#[test]
fn bash_augmentation_normalizes_hyphenated_binary_name() {
    let script = augment_bash(format!(
        "_gnome-randr() {{\ncase \"${{i}}\" in\n        {})\n            cmd=\"{}\"\n            ;;\nesac\ncase \"${{cmd}}\" in\n        {})\n            ;;\n        {}__modify)\n            ;;\nesac\n}}\n",
        BIN_NAME,
        BIN_NAME,
        BIN_NAME,
        BIN_NAME.replace('-', "__")
    ));

    assert!(script.contains("        gnome-randr)\n            cmd=\"gnome__randr\""));
    assert!(script.contains("cmd=\"gnome__randr\""));
    assert!(script.contains("        gnome__randr)"));
    assert!(script.contains("        gnome__randr__modify)"));
}

#[test]
fn zsh_augmentation_supports_autoload_and_eval() {
    let script = augment_zsh("_gnome-randr() {\n}\n_gnome-randr \"$@\"\n".to_string());

    assert!(script.contains("__gnome_randr_static() {\n}"));
    assert!(script.contains("dynamic_output=$(command gnome-randr __complete \"$PREFIX\" \"${prior_words[@]}\" 2>/dev/null)"));
    assert!(script.contains("if [[ -n $dynamic_output ]]; then"));
    assert!(script.contains("if [[ \"${funcstack[1]-}\" == \"_gnome-randr\" || \"${funcstack[1]-}\" == \"_gnome_randr\" ]]; then"));
    assert!(script.contains("compdef _gnome-randr gnome-randr"));
}

#[test]
fn bash_command_root_doubles_hyphens() {
    assert_eq!(bash_command_root(), "gnome__randr");
}

#[test]
fn bash_augmentation_renames_static_function_once() {
    let script = augment_bash("_gnome-randr() {\n}\n".to_string());
    assert!(script.starts_with("__gnome_randr_static() {\n}\n"));
    assert!(script.contains("\n_gnome-randr() {\n    local cur\n"));
    assert!(script.contains("command gnome-randr __complete \"$cur\""));
}

#[test]
fn fish_augmentation_appends_dynamic_function() {
    let script = augment_fish("complete -c gnome-randr\n".to_string());
    assert!(script.starts_with("complete -c gnome-randr\n\n\nfunction __fish_gnome_randr_dynamic\n"));
    assert!(script.contains("    command gnome-randr __complete \"$current\" $tokens 2>/dev/null\n"));
    assert!(script.ends_with("complete -c gnome-randr -f -a '(__fish_gnome_randr_dynamic)'\n"));
}

#[test]
fn replace_first_replaces_only_the_first_occurrence() {
    assert_eq!(replace_first_str("a-b-c", "-", "+"), "a+b-c");
    assert_eq!(replace_first_str("abc", "x", "y"), "abc");
    assert_eq!(replace_first_str("abc", "", "_"), "_abc");
    assert_eq!(replace_first_str("", "a", "b"), "");
}

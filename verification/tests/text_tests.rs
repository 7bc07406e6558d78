use ctrlset::capture::{build_chord_label, is_uncapturable, Mods};
use ctrlset::command::{parse_command, tokenize, Command};
use ctrlset::groups::sort_names;
use ctrlset::keymap::{canonical_key, effective_key, Keymap};
use ctrlset::text::{normalize_query, str_lex_leq, strip_whitespace};

#[test]
fn strip_whitespace_removes_all_whitespace() {
    assert_eq!(strip_whitespace(" a b\tc\n"), "abc");
    assert_eq!(strip_whitespace(""), "");
    assert_eq!(strip_whitespace("abc"), "abc");
}

#[test]
fn normalize_query_strips_then_lowercases() {
    assert_eq!(normalize_query(" M oV "), "mov");
    assert_eq!(normalize_query("MoVe DOWN"), "movedown");
    assert_eq!(normalize_query(""), "");
}

#[test]
fn lexicographic_order_on_names() {
    assert!(str_lex_leq("Alpha", "Beta"));
    assert!(!str_lex_leq("Beta", "Alpha"));
    assert!(str_lex_leq("abc", "abc"));
    assert!(str_lex_leq("ab", "abc"));
    assert!(!str_lex_leq("abc", "ab"));
    // Upper-case letters sort before lower-case ones by scalar value.
    assert!(str_lex_leq("Zed", "alpha"));
}

#[test]
fn sort_names_orders_lexicographically() {
    let names = vec!["pear".to_string(), "apple".to_string(), "fig".to_string()];
    assert_eq!(
        sort_names(&names),
        vec!["apple".to_string(), "fig".to_string(), "pear".to_string()]
    );
}

#[test]
fn tokenize_splits_at_whitespace() {
    assert_eq!(tokenize("new  My App "), vec!["new", "My", "App"]);
    assert_eq!(tokenize(""), Vec::<String>::new());
    assert_eq!(tokenize("  "), Vec::<String>::new());
}

#[test]
fn parse_command_grammar() {
    assert!(matches!(parse_command("w"), Command::Save));
    assert!(matches!(parse_command(" wq "), Command::SaveQuit));
    assert!(matches!(parse_command("q"), Command::Quit));
    assert!(matches!(parse_command("q!"), Command::ForceQuit));
    assert!(matches!(parse_command("help"), Command::ShowHelp));
    assert!(matches!(parse_command("w x"), Command::Unknown));
    assert!(matches!(parse_command("quit"), Command::Unknown));
    match parse_command("new  My  App") {
        Command::NewGroup(name) => assert_eq!(name, "My App"),
        _ => panic!("expected a new-group command"),
    }
    match parse_command("new") {
        Command::NewGroup(name) => assert_eq!(name, ""),
        _ => panic!("expected a new-group command"),
    }
}

#[test]
fn canonical_key_names() {
    assert_eq!(canonical_key("down"), Some("ArrowDown".to_string()));
    assert_eq!(canonical_key("Escape"), Some("Escape".to_string()));
    assert_eq!(canonical_key("j"), Some("J".to_string()));
    assert_eq!(canonical_key("f11"), Some("F11".to_string()));
    assert_eq!(canonical_key("slash"), Some("Slash".to_string()));
    assert_eq!(canonical_key("not a key"), None);
}

#[test]
fn effective_key_falls_back_on_unknown_names() {
    let bound = "colon".to_string();
    assert_eq!(effective_key(&bound, "J"), "Colon");
    let broken = "Control+OpenBracket".to_string();
    assert_eq!(effective_key(&broken, "J"), "J");
}

#[test]
fn default_keymap_bindings() {
    let km = Keymap::default();
    assert_eq!(km.down, "J");
    assert_eq!(km.up, "K");
    assert_eq!(km.left, vec!["H".to_string(), "B".to_string()]);
    assert_eq!(km.leader, "Space");
    assert_eq!(km.goto_top, "G");
}

#[test]
fn chord_label_orders_modifiers() {
    let all = Mods { ctrl: true, alt: true, shift: true, cmd: true };
    assert_eq!(build_chord_label(&"K".to_string(), all), "Ctrl+Alt+Shift+Cmd+K");
    assert_eq!(build_chord_label(&"K".to_string(), Mods::none()), "K");
    assert_eq!(build_chord_label(&"Tab".to_string(), Mods::shift_only()), "Shift+Tab");
}

#[test]
fn uncapturable_keys() {
    assert!(is_uncapturable(&"F1".to_string()));
    assert!(is_uncapturable(&"F20".to_string()));
    assert!(is_uncapturable(&"Shift".to_string()));
    assert!(!is_uncapturable(&"K".to_string()));
    assert!(!is_uncapturable(&"Escape".to_string()));
}


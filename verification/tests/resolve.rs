use dygma_layer_switcher::config::Config;
use dygma_layer_switcher::processes::ProcessInfo;
use dygma_layer_switcher::structs::{executable_name, known_text, process_name, App, AppDetails, Exclude,
    Layer, Mode, Parent, Process, Window};

fn resolve_window(name: &str) -> App {
    App { mode: Mode::Window(Window { name: name.to_string() }), is_enabled: true }
}

fn resolve_process(name: &str) -> App {
    App { mode: Mode::Process(Process { name: name.to_string() }), is_enabled: true }
}

fn resolve_parent(name: &str, excludes: &[&str]) -> App {
    let excludes = excludes
        .iter()
        .map(|e| Exclude { name: e.to_string(), is_enabled: true })
        .collect();
    App { mode: Mode::Parent(Parent { name: name.to_string(), excludes }), is_enabled: true }
}

fn resolve_focus(window: Option<&str>, process: Option<&str>) -> AppDetails {
    AppDetails { window: window.map(|w| w.to_string()), process: process.map(|p| p.to_string()) }
}

fn resolve_entry(pid: u32, name: &str, parent: Option<u32>) -> ProcessInfo {
    ProcessInfo { pid, name: name.to_string(), parent }
}

#[test]
fn process_rule_gives_its_layer() {
    let mut config = Config::new("COM5");
    assert!(config.add_app(2, resolve_process("notepad.exe")));
    let focused = resolve_focus(None, Some("notepad.exe"));
    assert_eq!(config.check_process(&focused), Some(2));
    assert_eq!(config.resolve_in(&focused, &vec![]), 2);
    assert_eq!(config.resolve(&focused), 2);
}

#[test]
fn no_rule_gives_base_layer() {
    let mut config = Config::new("COM5");
    config.base_layer = 4;
    assert!(config.add_app(2, resolve_process("notepad.exe")));
    assert!(config.add_app(3, resolve_window("editor")));
    let focused = resolve_focus(Some("Terminal"), Some("bash"));
    assert_eq!(config.check_window(&focused), None);
    assert_eq!(config.check_process(&focused), None);
    assert_eq!(config.resolve_in(&focused, &vec![]), 4);
    assert_eq!(config.resolve(&focused), 4);
}

#[test]
fn empty_mapping_gives_base_layer() {
    let config = Config::new("COM5");
    let focused = resolve_focus(Some("Anything"), Some("anything.exe"));
    assert_eq!(config.resolve_in(&focused, &vec![]), 1);
}

#[test]
fn window_rule_wins_over_process_and_parent_rules() {
    let mut config = Config::new("COM5");
    assert!(config.add_app(2, resolve_process("code.exe")));
    assert!(config.add_app(3, resolve_parent("explorer.exe", &[])));
    assert!(config.add_app(7, resolve_window("visual studio")));
    let table = vec![
        resolve_entry(1, "explorer.exe", None),
        resolve_entry(2, "code.exe", Some(1)),
    ];
    let focused = resolve_focus(Some("main.rs - Visual Studio Code"), Some("code.exe"));
    assert_eq!(config.check_window(&focused), Some(7));
    assert_eq!(config.check_process(&focused), Some(2));
    assert_eq!(config.check_parent_in(&focused, &table), Some(3));
    assert_eq!(config.resolve_in(&focused, &table), 7);
}

#[test]
fn process_rule_wins_over_parent_rule() {
    let mut config = Config::new("COM5");
    assert!(config.add_app(5, resolve_process("code.exe")));
    assert!(config.add_app(3, resolve_parent("explorer.exe", &[])));
    let table = vec![
        resolve_entry(1, "explorer.exe", None),
        resolve_entry(2, "code.exe", Some(1)),
    ];
    let focused = resolve_focus(Some("untitled"), Some("code.exe"));
    assert_eq!(config.resolve_in(&focused, &table), 5);
}

#[test]
fn parent_rule_is_asked_last() {
    let mut config = Config::new("COM5");
    assert!(config.add_app(5, resolve_process("other.exe")));
    assert!(config.add_app(3, resolve_parent("explorer.exe", &[])));
    let table = vec![
        resolve_entry(1, "explorer.exe", None),
        resolve_entry(2, "code.exe", Some(1)),
    ];
    let focused = resolve_focus(Some("untitled"), Some("code.exe"));
    assert_eq!(config.resolve_in(&focused, &table), 3);
}

#[test]
fn lower_layer_wins_among_matching_window_rules() {
    let mut config = Config::new("COM5");
    assert!(config.add_app(5, resolve_window("mail")));
    assert!(config.add_app(2, resolve_window("inbox")));
    let focused = resolve_focus(Some("Inbox - Mail"), None);
    assert_eq!(config.check_window(&focused), Some(2));
    assert_eq!(config.resolve_in(&focused, &vec![]), 2);
}

#[test]
fn window_match_is_partial_and_ignores_case() {
    let mut config = Config::new("COM5");
    assert!(config.add_app(6, resolve_window("FireFox")));
    assert_eq!(config.check_window(&resolve_focus(Some("Mozilla firefox"), None)), Some(6));
    assert_eq!(config.check_window(&resolve_focus(Some("MOZILLA FIREFOX - home"), None)), Some(6));
    assert_eq!(config.check_window(&resolve_focus(Some("fire fox"), None)), None);
    assert_eq!(config.check_window(&resolve_focus(Some("fox"), None)), None);
}

#[test]
fn process_match_is_exact_and_ignores_case() {
    let mut config = Config::new("COM5");
    assert!(config.add_app(2, resolve_process("Notepad.exe")));
    assert_eq!(config.check_process(&resolve_focus(None, Some("NOTEPAD.EXE"))), Some(2));
    assert_eq!(config.check_process(&resolve_focus(None, Some("notepad.exe"))), Some(2));
    assert_eq!(config.check_process(&resolve_focus(None, Some("notepad"))), None);
    assert_eq!(config.check_process(&resolve_focus(None, Some("my-notepad.exe"))), None);
}

#[test]
fn absent_attributes_match_nothing() {
    let mut config = Config::new("COM5");
    assert!(config.add_app(2, resolve_window("")));
    assert!(config.add_app(3, resolve_process("")));
    assert!(config.add_app(4, resolve_parent("explorer.exe", &[])));
    let table = vec![resolve_entry(1, "explorer.exe", None)];
    let focused = resolve_focus(None, None);
    assert_eq!(config.check_window(&focused), None);
    assert_eq!(config.check_process(&focused), None);
    assert_eq!(config.check_parent_in(&focused, &table), None);
    assert_eq!(config.check_parent(&focused), None);
    assert_eq!(config.resolve_in(&focused, &table), 1);
    assert_eq!(config.resolve(&focused), 1);
}

#[test]
fn empty_window_rule_matches_every_title() {
    let mut config = Config::new("COM5");
    assert!(config.add_app(2, resolve_window("")));
    assert_eq!(config.check_window(&resolve_focus(Some("whatever"), None)), Some(2));
    assert_eq!(config.check_window(&resolve_focus(Some(""), None)), Some(2));
}

#[test]
fn disabled_rules_never_match() {
    let mut config = Config::new("COM5");
    let mut window = resolve_window("editor");
    window.is_enabled = false;
    let mut process = resolve_process("editor.exe");
    process.is_enabled = false;
    let mut parent = resolve_parent("shell.exe", &[]);
    parent.is_enabled = false;
    assert!(config.add_app(2, window));
    assert!(config.add_app(3, process));
    assert!(config.add_app(4, parent));
    let table = vec![
        resolve_entry(1, "shell.exe", None),
        resolve_entry(2, "editor.exe", Some(1)),
    ];
    let focused = resolve_focus(Some("Editor"), Some("editor.exe"));
    assert_eq!(config.check_window(&focused), None);
    assert_eq!(config.check_process(&focused), None);
    assert!(!config.has_parent_rule());
    assert_eq!(config.check_parent_in(&focused, &table), None);
    assert_eq!(config.resolve_in(&focused, &table), 1);
}

#[test]
fn rules_of_another_kind_are_not_asked() {
    let mut config = Config::new("COM5");
    assert!(config.add_app(2, resolve_window("code.exe")));
    assert!(config.add_app(3, resolve_process("my title")));
    let focused = resolve_focus(Some("my title"), Some("code.exe"));
    assert_eq!(config.check_window(&focused), None);
    assert_eq!(config.check_process(&focused), None);
    assert_eq!(config.check_attributes(&focused), None);
}

#[test]
fn excluded_process_falls_through_to_base_layer() {
    let mut config = Config::new("COM5");
    assert!(config.add_app(3, resolve_parent("shell.exe", &["term.exe"])));
    let table = vec![
        resolve_entry(10, "shell.exe", None),
        resolve_entry(11, "term.exe", Some(10)),
    ];
    let focused = resolve_focus(None, Some("term.exe"));
    assert!(config.is_process_excluded("term.exe"));
    assert_eq!(config.check_parent_in(&focused, &table), None);
    assert_eq!(config.check_parent(&focused), None);
    assert_eq!(config.resolve_in(&focused, &table), 1);
    assert_eq!(config.resolve(&focused), 1);
    let other = resolve_focus(None, Some("editor.exe"));
    let table = vec![
        resolve_entry(10, "shell.exe", None),
        resolve_entry(12, "editor.exe", Some(10)),
    ];
    assert!(!config.is_process_excluded("editor.exe"));
    assert_eq!(config.resolve_in(&other, &table), 3);
}

#[test]
fn resolved_layer_of_valid_mapping_is_a_keyboard_layer() {
    let mut config = Config::new("COM5");
    config.base_layer = 10;
    assert!(config.add_app(1, resolve_window("one")));
    assert!(config.add_app(10, resolve_window("ten")));
    assert!(config.is_valid());
    for title in ["one", "ten", "none"] {
        let layer = config.resolve_in(&resolve_focus(Some(title), None), &vec![]);
        assert!((1..=10).contains(&layer));
    }
}

#[test]
fn resolve_reads_running_processes_for_parent_rules() {
    let mut config = Config::new("COM5");
    config.base_layer = 9;
    assert!(config.add_app(3, resolve_parent("shell.exe", &[])));
    let focused = resolve_focus(None, Some("no process carries this name \u{1}\u{2}"));
    assert_eq!(config.check_parent(&focused), None);
    assert_eq!(config.resolve(&focused), 9);
}

#[test]
fn lower_layer_wins_among_parent_rules_in_any_order() {
    let mut config = Config::new("COM5");
    config.mappings.push(Layer { layer: 8, apps: vec![resolve_parent("shell.exe", &[])] });
    config.mappings.push(Layer { layer: 3, apps: vec![resolve_parent("shell.exe", &[])] });
    config.mappings.push(Layer { layer: 6, apps: vec![resolve_parent("shell.exe", &[])] });
    let table = vec![
        resolve_entry(1, "shell.exe", None),
        resolve_entry(2, "tool.exe", Some(1)),
    ];
    let focused = resolve_focus(None, Some("tool.exe"));
    assert_eq!(config.check_parent_in(&focused, &table), Some(3));
    assert_eq!(config.resolve_in(&focused, &table), 3);
}

#[test]
fn lower_layer_wins_among_process_rules_in_any_order() {
    let mut config = Config::new("COM5");
    config.mappings.push(Layer { layer: 5, apps: vec![resolve_process("mail.exe")] });
    config.mappings.push(Layer { layer: 2, apps: vec![resolve_process("mail.exe")] });
    let focused = resolve_focus(None, Some("Mail.exe"));
    assert_eq!(config.check_process(&focused), Some(2));
    assert_eq!(config.resolve(&focused), 2);
}

#[test]
fn executable_name_is_the_last_part_of_the_path() {
    assert_eq!(executable_name("/usr/bin/notepad"), Some("notepad".to_string()));
    assert_eq!(executable_name("tools/editor/Code.exe"), Some("Code.exe".to_string()));
    assert_eq!(executable_name("notepad.exe"), Some("notepad.exe".to_string()));
    assert_eq!(executable_name("tools/editor/"), Some("editor".to_string()));
    assert_eq!(executable_name(""), None);
    assert_eq!(executable_name("/"), None);
    assert_eq!(executable_name("tools/.."), None);
}

#[test]
fn empty_texts_are_unknown() {
    assert_eq!(known_text(String::new()), None);
    assert_eq!(known_text("a".to_string()), Some("a".to_string()));
    assert_eq!(process_name(None), None);
    assert_eq!(process_name(Some(String::new())), None);
    assert_eq!(process_name(Some("tool.exe".to_string())), Some("tool.exe".to_string()));
}

#[test]
fn focus_details_come_from_title_and_path() {
    let details = AppDetails::from_raw("Inbox - Mail".to_string(), "/opt/mail/bin/mail");
    assert_eq!(details.window, Some("Inbox - Mail".to_string()));
    assert_eq!(details.process, Some("mail".to_string()));
    let details = AppDetails::from_raw(String::new(), "");
    assert_eq!(details.window, None);
    assert_eq!(details.process, None);
    let mut config = Config::new("COM5");
    assert!(config.add_app(4, resolve_process("MAIL")));
    let details = AppDetails::from_raw(String::new(), "/opt/mail/bin/mail");
    assert_eq!(config.resolve_in(&details, &vec![]), 4);
}

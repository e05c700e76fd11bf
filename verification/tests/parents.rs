use dygma_layer_switcher::config::Config;
use dygma_layer_switcher::matcher::{any_match, lowest_match, Query};
use dygma_layer_switcher::processes::{find_by_name, find_by_pid, has_seen, walk_ancestors, ProcessInfo};
use dygma_layer_switcher::structs::{App, AppDetails, Exclude, Layer, Mode, Parent, Process, Window};
use dygma_layer_switcher::text::fold;

fn parents_rule(name: &str, excludes: &[(&str, bool)]) -> App {
    let excludes = excludes
        .iter()
        .map(|(e, on)| Exclude { name: e.to_string(), is_enabled: *on })
        .collect();
    App { mode: Mode::Parent(Parent { name: name.to_string(), excludes }), is_enabled: true }
}

fn parents_focus(process: &str) -> AppDetails {
    AppDetails { window: None, process: Some(process.to_string()) }
}

fn parents_entry(pid: u32, name: &str, parent: Option<u32>) -> ProcessInfo {
    ProcessInfo { pid, name: name.to_string(), parent }
}

fn parents_config(layer: u8, rule: App) -> Config {
    let mut config = Config::new("COM5");
    assert!(config.add_app(layer, rule));
    config
}

#[test]
fn direct_parent_matches() {
    let config = parents_config(3, parents_rule("shell.exe", &[]));
    let table = vec![
        parents_entry(1, "init", None),
        parents_entry(2, "shell.exe", Some(1)),
        parents_entry(3, "tool.exe", Some(2)),
    ];
    assert_eq!(config.check_parent_in(&parents_focus("tool.exe"), &table), Some(3));
}

#[test]
fn distant_ancestor_matches() {
    let config = parents_config(4, parents_rule("launcher.exe", &[]));
    let table = vec![
        parents_entry(5, "tool.exe", Some(4)),
        parents_entry(4, "helper.exe", Some(3)),
        parents_entry(3, "shell.exe", Some(2)),
        parents_entry(2, "launcher.exe", Some(1)),
        parents_entry(1, "init", None),
    ];
    assert_eq!(config.check_parent_in(&parents_focus("tool.exe"), &table), Some(4));
}

#[test]
fn nearest_matching_ancestor_decides() {
    let mut config = parents_config(2, parents_rule("launcher.exe", &[]));
    assert!(config.add_app(6, parents_rule("shell.exe", &[])));
    let table = vec![
        parents_entry(1, "launcher.exe", None),
        parents_entry(2, "shell.exe", Some(1)),
        parents_entry(3, "tool.exe", Some(2)),
    ];
    assert_eq!(config.check_parent_in(&parents_focus("tool.exe"), &table), Some(6));
}

#[test]
fn nearest_ancestor_comes_before_lower_layer() {
    let mut config = parents_config(2, parents_rule("launcher.exe", &[]));
    config.mappings.insert(0, Layer { layer: 9, apps: vec![parents_rule("shell.exe", &[])] });
    let table = vec![
        parents_entry(1, "launcher.exe", None),
        parents_entry(2, "shell.exe", Some(1)),
        parents_entry(3, "tool.exe", Some(2)),
    ];
    assert_eq!(config.check_parent_in(&parents_focus("tool.exe"), &table), Some(9));
}

#[test]
fn lower_layer_wins_at_one_ancestor() {
    let mut config = parents_config(7, parents_rule("shell.exe", &[]));
    assert!(config.add_app(4, parents_rule("the shell.exe of the system", &[])));
    let table = vec![
        parents_entry(2, "shell.exe", None),
        parents_entry(3, "tool.exe", Some(2)),
    ];
    assert_eq!(config.check_parent_in(&parents_focus("tool.exe"), &table), Some(4));
}

#[test]
fn focused_process_itself_is_not_an_ancestor() {
    let config = parents_config(3, parents_rule("tool.exe", &[]));
    let table = vec![
        parents_entry(1, "init", None),
        parents_entry(3, "tool.exe", Some(1)),
    ];
    assert_eq!(config.check_parent_in(&parents_focus("tool.exe"), &table), None);
}

#[test]
fn ancestor_match_ignores_case_and_is_partial() {
    let config = parents_config(3, parents_rule("C:\\Tools\\Shell.EXE", &[]));
    let table = vec![
        parents_entry(2, "SHELL.exe", None),
        parents_entry(3, "tool.exe", Some(2)),
    ];
    assert_eq!(config.check_parent_in(&parents_focus("TOOL.EXE"), &table), Some(3));
    let config = parents_config(3, parents_rule("shell", &[]));
    assert_eq!(config.check_parent_in(&parents_focus("tool.exe"), &table), None);
}

#[test]
fn process_is_found_by_part_of_its_name() {
    let config = parents_config(3, parents_rule("shell.exe", &[]));
    let table = vec![
        parents_entry(2, "shell.exe", None),
        parents_entry(3, "Tool.exe", Some(2)),
    ];
    assert_eq!(config.check_parent_in(&parents_focus("tool"), &table), Some(3));
}

#[test]
fn first_process_with_the_name_starts_the_walk() {
    let config = parents_config(3, parents_rule("shell.exe", &[]));
    let table = vec![
        parents_entry(7, "tool.exe", None),
        parents_entry(2, "shell.exe", None),
        parents_entry(3, "tool.exe", Some(2)),
    ];
    assert_eq!(config.check_parent_in(&parents_focus("tool.exe"), &table), None);
    let table = vec![
        parents_entry(3, "tool.exe", Some(2)),
        parents_entry(7, "tool.exe", None),
        parents_entry(2, "shell.exe", None),
    ];
    assert_eq!(config.check_parent_in(&parents_focus("tool.exe"), &table), Some(3));
}

#[test]
fn unknown_process_gives_nothing() {
    let config = parents_config(3, parents_rule("shell.exe", &[]));
    let table = vec![
        parents_entry(2, "shell.exe", None),
        parents_entry(3, "tool.exe", Some(2)),
    ];
    assert_eq!(config.check_parent_in(&parents_focus("other.exe"), &table), None);
    assert_eq!(config.check_parent_in(&parents_focus("tool.exe"), &vec![]), None);
}

#[test]
fn missing_parent_ends_the_walk() {
    let config = parents_config(3, parents_rule("shell.exe", &[]));
    let table = vec![
        parents_entry(2, "shell.exe", None),
        parents_entry(4, "helper.exe", Some(99)),
        parents_entry(5, "tool.exe", Some(4)),
    ];
    assert_eq!(config.check_parent_in(&parents_focus("tool.exe"), &table), None);
}

#[test]
fn root_without_match_ends_the_walk() {
    let config = parents_config(3, parents_rule("shell.exe", &[]));
    let table = vec![
        parents_entry(1, "init", None),
        parents_entry(5, "tool.exe", Some(1)),
    ];
    assert_eq!(config.check_parent_in(&parents_focus("tool.exe"), &table), None);
}

#[test]
fn cycle_of_parents_ends_the_walk() {
    let config = parents_config(3, parents_rule("shell.exe", &[]));
    let table = vec![
        parents_entry(1, "a.exe", Some(3)),
        parents_entry(2, "b.exe", Some(1)),
        parents_entry(3, "c.exe", Some(2)),
        parents_entry(4, "shell.exe", None),
    ];
    assert_eq!(config.check_parent_in(&parents_focus("a.exe"), &table), None);
}

#[test]
fn process_that_is_its_own_parent_ends_the_walk() {
    let config = parents_config(3, parents_rule("idle", &[]));
    let table = vec![parents_entry(0, "idle", Some(0))];
    assert_eq!(config.check_parent_in(&parents_focus("idle"), &table), None);
}

#[test]
fn cycle_is_left_at_a_match() {
    let config = parents_config(3, parents_rule("b.exe", &[]));
    let table = vec![
        parents_entry(1, "a.exe", Some(2)),
        parents_entry(2, "b.exe", Some(1)),
    ];
    assert_eq!(config.check_parent_in(&parents_focus("a.exe"), &table), Some(3));
}

#[test]
fn exclusion_of_any_rule_stops_all_parent_rules() {
    let mut config = parents_config(3, parents_rule("shell.exe", &[]));
    assert!(config.add_app(5, parents_rule("other.exe", &[("tool.exe", true)])));
    let table = vec![
        parents_entry(2, "shell.exe", None),
        parents_entry(3, "tool.exe", Some(2)),
    ];
    let focused = parents_focus("tool.exe");
    assert!(config.is_process_excluded("tool.exe"));
    assert_eq!(config.check_parent_in(&focused, &table), None);
}

#[test]
fn exclusion_is_partial_and_ignores_case() {
    let config = parents_config(3, parents_rule("shell.exe", &[("My-Terminal.exe", true)]));
    assert!(config.is_process_excluded("terminal"));
    assert!(config.is_process_excluded("MY-TERMINAL.EXE"));
    assert!(!config.is_process_excluded("terminal.exe.bak"));
    assert!(config.is_process_excluded(""));
}

#[test]
fn disabled_exclusion_excludes_nothing() {
    let config = parents_config(3, parents_rule("shell.exe", &[("tool.exe", false)]));
    let table = vec![
        parents_entry(2, "shell.exe", None),
        parents_entry(3, "tool.exe", Some(2)),
    ];
    let focused = parents_focus("tool.exe");
    assert!(!config.is_process_excluded("tool.exe"));
    assert_eq!(config.check_parent_in(&focused, &table), Some(3));
}

#[test]
fn exclusion_of_disabled_rule_excludes_nothing() {
    let mut config = parents_config(3, parents_rule("shell.exe", &[]));
    let mut off = parents_rule("other.exe", &[("tool.exe", true)]);
    off.is_enabled = false;
    assert!(config.add_app(5, off));
    assert!(!config.is_process_excluded("tool.exe"));
}

#[test]
fn queries_answer_by_kind() {
    let groups = vec![
        Layer {
            layer: 2,
            apps: vec![App { mode: Mode::Window(Window { name: "Mail".to_string() }), is_enabled: true }],
        },
        Layer {
            layer: 4,
            apps: vec![
                App { mode: Mode::Process(Process { name: "Mail.exe".to_string() }), is_enabled: true },
                parents_rule("Shell.exe", &[("Term.exe", true)]),
            ],
        },
    ];
    assert_eq!(lowest_match(&groups, &Query::window("my mail")), Some(2));
    assert_eq!(lowest_match(&groups, &Query::process("MAIL.EXE")), Some(4));
    assert_eq!(lowest_match(&groups, &Query::process("mail")), None);
    assert_eq!(lowest_match(&groups, &Query::ancestor("shell.exe", "tool.exe")), Some(4));
    assert_eq!(lowest_match(&groups, &Query::ancestor("shell.exe", "term.exe")), None);
    assert_eq!(lowest_match(&groups, &Query::excluding("TERM.EXE")), Some(4));
    assert_eq!(lowest_match(&groups, &Query::AnyParent), Some(4));
    let reversed: Vec<Layer> = groups.iter().rev().cloned().collect();
    assert_eq!(lowest_match(&reversed, &Query::window("my mail")), Some(2));
    assert_eq!(lowest_match(&reversed, &Query::AnyParent), Some(4));
    assert!(any_match(&groups, &Query::AnyParent));
    assert!(!any_match(&groups, &Query::excluding("tool.exe")));
    assert!(!any_match(&vec![], &Query::AnyParent));
}

#[test]
fn table_lookups_give_first_position() {
    let table = vec![
        parents_entry(4, "Alpha.exe", None),
        parents_entry(9, "beta.exe", Some(4)),
        parents_entry(4, "alphabet.exe", Some(9)),
    ];
    assert_eq!(find_by_pid(&table, 4), Some(0));
    assert_eq!(find_by_pid(&table, 9), Some(1));
    assert_eq!(find_by_pid(&table, 5), None);
    assert_eq!(find_by_name(&table, &fold("ALPHA")), Some(0));
    assert_eq!(find_by_name(&table, &fold("alphabet")), Some(2));
    assert_eq!(find_by_name(&table, &fold("gamma")), None);
    assert!(has_seen(&vec![1, 2, 3], 2));
    assert!(!has_seen(&vec![1, 2, 3], 4));
    assert!(!has_seen(&vec![], 0));
}

#[test]
fn walk_starts_at_the_given_position() {
    let groups = vec![Layer { layer: 8, apps: vec![parents_rule("root.exe", &[])] }];
    let table = vec![
        parents_entry(1, "root.exe", None),
        parents_entry(2, "mid.exe", Some(1)),
        parents_entry(3, "leaf.exe", Some(2)),
    ];
    let focused = fold("leaf.exe");
    assert_eq!(walk_ancestors(&groups, &table, &focused, 2), Some(8));
    assert_eq!(walk_ancestors(&groups, &table, &focused, 1), Some(8));
    assert_eq!(walk_ancestors(&groups, &table, &focused, 0), None);
}

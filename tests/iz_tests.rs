use iz::config::{choose_base_dir, BaseDir, IzConfig};
use iz::guard::{finish_session, start_session, FinishAction, LifecycleGuard, StopSignal};
use iz::materialize::{directories_to_create, MaterializeError, TreeEntry};
use iz::params::parse_key_val;
use iz::reaper::{confirms, is_affirmative, select_stale, summarize, CleanSummary};
use iz::runner::{parse_command_line, split_words};
use iz::template::substitute_variables;
use iz::workspace::{fresh_workspace_name, is_workspace_name, workspace_name};
use std::collections::HashMap;

fn pairs(items: &[(&str, &str)]) -> Vec<(String, String)> {
    items.iter().map(|(k, v)| (k.to_string(), v.to_string())).collect()
}

#[test]
fn test_parse_key_val_success() {
    let result = parse_key_val("name=Ali").ok().unwrap();
    assert_eq!(result, ("name".to_string(), "Ali".to_string()));

    let result = parse_key_val("port=8080").ok().unwrap();
    assert_eq!(result, ("port".to_string(), "8080".to_string()));

    let result = parse_key_val("key=value=with=equals").ok().unwrap();
    assert_eq!(result, ("key".to_string(), "value=with=equals".to_string()));
}

#[test]
fn test_parse_key_val_failure() {
    let result = parse_key_val("invalid_format");
    assert!(result.is_err());
    assert!(result.err().unwrap().message().contains("Invalid KEY=value format"));
}

#[test]
fn test_substitute_variables_success() {
    let params = pairs(&[("name", "Ali"), ("port", "8080")]);

    let result = substitute_variables("echo 'Merhaba #{name}!'", &params).ok().unwrap();
    assert_eq!(result, "echo 'Merhaba Ali!'");

    let result = substitute_variables("server --port #{port}", &params).ok().unwrap();
    assert_eq!(result, "server --port 8080");

    let result = substitute_variables("greet #{name} on port #{port}", &params).ok().unwrap();
    assert_eq!(result, "greet Ali on port 8080");
}

#[test]
fn test_substitute_variables_no_variables() {
    let params = Vec::new();
    let result = substitute_variables("echo 'Hello World'", &params).ok().unwrap();
    assert_eq!(result, "echo 'Hello World'");
}

#[test]
fn test_substitute_variables_missing_param() {
    let params = Vec::new();
    let result = substitute_variables("echo 'Hello #{name}'", &params);
    assert!(result.is_err());
    assert!(result
        .err()
        .unwrap()
        .message()
        .contains("Required parameter not found: name"));
}

#[test]
fn parse_key_val_empty_key_and_value() {
    let result = parse_key_val("=").ok().unwrap();
    assert_eq!(result, (String::new(), String::new()));
    let e = parse_key_val("").err().unwrap();
    assert_eq!(e.message(), "Invalid KEY=value format: ");
}

#[test]
fn substitution_replaces_repeated_placeholder() {
    let params = pairs(&[("x", "1")]);
    let r = substitute_variables("#{x}+#{x}=2", &params).ok().unwrap();
    assert_eq!(r, "1+1=2");
}

#[test]
fn substitution_reports_first_missing_name() {
    let params = pairs(&[("b", "B")]);
    let e = substitute_variables("#{b} #{a} #{c}", &params).err().unwrap();
    assert_eq!(e.name, "a");
    assert_eq!(e.message(), "Required parameter not found: a");
}

#[test]
fn substitution_later_parameter_wins() {
    let params = pairs(&[("n", "first"), ("n", "second")]);
    let r = substitute_variables("#{n}", &params).ok().unwrap();
    assert_eq!(r, "second");
}

#[test]
fn substitution_leaves_non_placeholders() {
    let params = Vec::new();
    for t in ["#{}", "#{a-b}", "{name}", "#name", "# {x}", "#{x"] {
        let r = substitute_variables(t, &params).ok().unwrap();
        assert_eq!(r, t);
    }
}

#[test]
fn substitution_uses_unicode_word_class() {
    let params = pairs(&[("café_1", "ok")]);
    let r = substitute_variables("[#{café_1}]", &params).ok().unwrap();
    assert_eq!(r, "[ok]");
}

#[test]
fn substitution_with_every_name_bound_leaves_no_placeholder() {
    let params = pairs(&[("a", "x"), ("b", "y")]);
    let r = substitute_variables("#{a}#{b}#{a}", &params).ok().unwrap();
    assert_eq!(r, "xyx");
    assert!(!r.contains("#{"));
}

#[test]
fn substitution_value_is_not_rescanned() {
    let params = pairs(&[("a", "#{b}"), ("b", "y")]);
    let r = substitute_variables("#{a}", &params).ok().unwrap();
    assert_eq!(r, "#{b}");
}

#[test]
fn workspace_name_exact_form() {
    assert_eq!(workspace_name(1700000000123, 255), "iz-1700000000123-ff");
    assert_eq!(workspace_name(0, 0), "iz-0-0");
    assert_eq!(workspace_name(42, u32::MAX), "iz-42-ffffffff");
    assert_eq!(workspace_name(10, 16), "iz-10-10");
}

#[test]
fn workspace_names_in_same_millisecond_differ_by_random_value() {
    let a = workspace_name(1700000000000, 0x1234);
    let b = workspace_name(1700000000000, 0x1235);
    assert_ne!(a, b);
}

#[test]
fn fresh_workspace_name_has_expected_shape() {
    let n = fresh_workspace_name(99);
    assert!(n.starts_with("iz-99-"));
    let hex = &n["iz-99-".len()..];
    assert!(!hex.is_empty() && hex.len() <= 8);
    assert!(hex.chars().all(|c| c.is_ascii_hexdigit() && !c.is_ascii_uppercase()));
    assert!(is_workspace_name(&n));
}

#[test]
fn workspace_prefix_recognised() {
    assert!(is_workspace_name("iz-test1"));
    assert!(is_workspace_name("iz-"));
    assert!(!is_workspace_name("iz"));
    assert!(!is_workspace_name("other-folder"));
    assert!(!is_workspace_name("Iz-1"));
}

#[test]
fn reaper_selects_exactly_prefixed_directories() {
    let entries = vec![
        ("iz-test1".to_string(), true),
        ("iz-test2".to_string(), true),
        ("other-folder".to_string(), true),
    ];
    let stale = select_stale(&entries);
    assert_eq!(stale, vec!["iz-test1".to_string(), "iz-test2".to_string()]);
    let summary = summarize(&vec![true, true]);
    assert_eq!(summary, CleanSummary { cleaned: 2, failed: 0 });
}

#[test]
fn reaper_skips_prefixed_files() {
    let entries = vec![("iz-file".to_string(), false), ("iz-dir".to_string(), true)];
    assert_eq!(select_stale(&entries), vec!["iz-dir".to_string()]);
}

#[test]
fn reaper_with_nothing_stale_reports_zero() {
    let entries = vec![
        ("other-folder".to_string(), true),
        ("notes.txt".to_string(), false),
        ("xiz-1".to_string(), true),
    ];
    let stale = select_stale(&entries);
    assert!(stale.is_empty());
    let summary = summarize(&Vec::new());
    assert_eq!(summary, CleanSummary { cleaned: 0, failed: 0 });
}

#[test]
fn reaper_tally_counts_failures() {
    let summary = summarize(&vec![true, false, true, false, false]);
    assert_eq!(summary, CleanSummary { cleaned: 2, failed: 3 });
}

#[test]
fn confirmation_answers() {
    assert!(confirms("y"));
    assert!(confirms("yes\n"));
    assert!(confirms("  YES \n"));
    assert!(confirms("Y"));
    assert!(!confirms(""));
    assert!(!confirms("\n"));
    assert!(!confirms("n"));
    assert!(!confirms("yep"));
    assert!(!confirms("y e s"));
    assert!(is_affirmative("yes"));
    assert!(!is_affirmative("YES"));
}

#[test]
fn guard_takes_at_most_once() {
    let mut g = LifecycleGuard::new();
    assert!(g.disarm_and_take().is_none());
    assert!(g.arm("/tmp/ws/iz-1-a".to_string()));
    assert!(!g.arm("/tmp/ws/iz-2-b".to_string()));
    assert_eq!(g.disarm_and_take(), Some("/tmp/ws/iz-1-a".to_string()));
    assert_eq!(g.disarm_and_take(), None);
}

#[test]
fn stop_signal_exit_codes() {
    assert_eq!(StopSignal::Interrupt.exit_code(), 130);
    assert_eq!(StopSignal::Terminate.exit_code(), 143);
    assert_eq!(StopSignal::Interrupt.signal_number(), 2);
    assert_eq!(StopSignal::Terminate.signal_number(), 15);
}

#[test]
fn command_split_on_whitespace() {
    let c = parse_command_line("  echo 'Hello   from\ttest'\n").ok().unwrap();
    assert_eq!(c.program, "echo");
    assert_eq!(c.args, vec!["'Hello".to_string(), "from".to_string(), "test'".to_string()]);
    assert_eq!(split_words("a\u{3000}b"), vec!["a".to_string(), "b".to_string()]);
}

#[test]
fn empty_command_rejected() {
    assert!(parse_command_line("").is_err());
    let e = parse_command_line(" \t\n ").err().unwrap();
    assert_eq!(e.message(), "Empty command");
    let c = parse_command_line("pwd").ok().unwrap();
    assert_eq!(c.program, "pwd");
    assert!(c.args.is_empty());
}

#[test]
fn base_dir_priority() {
    let f = Some("flag".to_string());
    let e = Some("env".to_string());
    let c = Some("conf".to_string());
    let given = |b: BaseDir| match b {
        BaseDir::Given(p) => Some(p),
        BaseDir::Default => None,
    };
    assert_eq!(given(choose_base_dir(&f, &e, &c)), Some("flag".to_string()));
    assert_eq!(given(choose_base_dir(&None, &e, &c)), Some("env".to_string()));
    assert_eq!(given(choose_base_dir(&None, &None, &c)), Some("conf".to_string()));
    assert_eq!(given(choose_base_dir(&None, &None, &None)), None);
}

#[test]
fn keep_from_flag_or_config() {
    let mut cfg = IzConfig { commands: HashMap::new(), temp_dir: None, keep: None };
    assert!(!cfg.should_keep(false));
    assert!(cfg.should_keep(true));
    cfg.keep = Some(false);
    assert!(!cfg.should_keep(false));
    cfg.keep = Some(true);
    assert!(cfg.should_keep(false));
}

fn entry(root: &str, name: &str, is_tree: bool) -> TreeEntry {
    TreeEntry { root: root.to_string(), name: name.to_string(), is_tree }
}

#[test]
fn nested_subtrees_become_directories_in_walk_order() {
    let entries = vec![
        entry("", "README.md", false),
        entry("", "src", true),
        entry("src/", "deep", true),
        entry("src/deep/", "empty_parent", true),
        entry("src/deep/empty_parent/", "leaf.txt", false),
        entry("src/", "main.rs", false),
        entry("", "test.txt", false),
    ];
    let dirs = directories_to_create(&entries);
    assert_eq!(
        dirs,
        vec![
            "src".to_string(),
            "src/deep".to_string(),
            "src/deep/empty_parent".to_string()
        ]
    );
}

#[test]
fn flat_tree_needs_no_directories() {
    let entries = vec![entry("", "test.txt", false)];
    assert!(directories_to_create(&entries).is_empty());
}

#[test]
fn materialize_error_messages_are_distinct() {
    let all = [
        MaterializeError::RepositoryNotFound,
        MaterializeError::RevisionNotFound,
        MaterializeError::NotACommit,
        MaterializeError::TreeUnavailable,
        MaterializeError::DirectoryStructure,
        MaterializeError::ExtractionFailed,
    ];
    for (i, a) in all.iter().enumerate() {
        for b in all.iter().skip(i + 1) {
            assert_ne!(a.message(), b.message());
        }
    }
    assert_eq!(
        MaterializeError::RevisionNotFound.message(),
        "Commit not found - invalid commit ID"
    );
}

#[test]
fn hello_command_resolves_to_echo() {
    let mut commands = HashMap::new();
    commands.insert("hello".to_string(), "echo 'Hello from test project!'".to_string());
    let cfg = IzConfig { commands, temp_dir: None, keep: None };
    let template = cfg.commands.get("hello").unwrap();
    let resolved = substitute_variables(template, &Vec::new()).ok().unwrap();
    let line = parse_command_line(&resolved).ok().unwrap();
    assert_eq!(line.program, "echo");
    assert_eq!(line.args.join(" "), "'Hello from test project!'");
    assert!(!cfg.should_keep(false));
}

#[test]
fn greet_command_with_parameter_from_cli() {
    let (k, v) = parse_key_val("name=Integration").ok().unwrap();
    let resolved = substitute_variables("echo 'Hello #{name}!'", &vec![(k, v)]).ok().unwrap();
    assert_eq!(resolved, "echo 'Hello Integration!'");
}

#[test]
fn session_without_interrupt_removes_its_workspace() {
    let mut g = LifecycleGuard::new();
    assert!(start_session(&mut g, "/b/iz-1-2".to_string(), false));
    assert_eq!(finish_session(&mut g, false), FinishAction::Remove("/b/iz-1-2".to_string()));
    assert_eq!(g.disarm_and_take(), None);
}

#[test]
fn session_after_interrupt_cleanup_removes_nothing() {
    let mut g = LifecycleGuard::new();
    assert!(start_session(&mut g, "/b/iz-1-2".to_string(), false));
    assert_eq!(g.disarm_and_take(), Some("/b/iz-1-2".to_string()));
    assert_eq!(finish_session(&mut g, false), FinishAction::Nothing);
}

#[test]
fn kept_session_is_not_guarded() {
    let mut g = LifecycleGuard::new();
    assert!(!start_session(&mut g, "/b/iz-1-2".to_string(), true));
    assert_eq!(g.disarm_and_take(), None);
    assert_eq!(finish_session(&mut g, true), FinishAction::Preserve);
}

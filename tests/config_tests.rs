use grimoire_watcher::config::{Config, GlobEntry, PatternMatches, Project};
use grimoire_watcher::watcher::GrimoireWatcher;
use std::collections::BTreeSet;

fn file(p: &str) -> GlobEntry {
    GlobEntry::File { path: p.to_string() }
}

fn config() -> Config {
    Config {
        projects: vec![
            Project { input_paths: vec!["src/*.html".to_string(), "src/**/*.js".to_string()] },
            Project { input_paths: vec!["pages/*.html".to_string()] },
        ],
    }
}

fn as_set(v: &[String]) -> BTreeSet<String> {
    v.iter().cloned().collect()
}

#[test]
fn patterns_are_listed_in_order() {
    assert_eq!(config().patterns(), vec!["src/*.html", "src/**/*.js", "pages/*.html"]);
    assert!(Config { projects: vec![] }.patterns().is_empty());
}

#[test]
fn watch_set_holds_matched_files_and_config_once() {
    let cfg = config();
    let resolved = vec![
        PatternMatches::Matched {
            entries: vec![file("src/a.html"), GlobEntry::NotAFile, file("src/b.html")],
        },
        PatternMatches::Invalid,
        PatternMatches::Matched {
            entries: vec![file("src/a.html"), GlobEntry::Unreadable, file("pages/i.html")],
        },
    ];
    let cfg_path = "grimoire/config/grimoire.config.json".to_string();
    let ws = cfg.get_files_to_watch(&cfg_path, &resolved);
    assert_eq!(ws.len(), 4);
    let expected: BTreeSet<String> =
        ["src/a.html", "src/b.html", "pages/i.html", "grimoire/config/grimoire.config.json"]
            .iter()
            .map(|s| s.to_string())
            .collect();
    assert_eq!(as_set(&ws), expected);
}

#[test]
fn watch_set_of_nothing_matched_is_the_config_file() {
    let cfg = config();
    let resolved = vec![
        PatternMatches::Invalid,
        PatternMatches::Matched { entries: vec![] },
        PatternMatches::Matched { entries: vec![GlobEntry::NotAFile] },
    ];
    let ws = cfg.get_files_to_watch(&"c.json".to_string(), &resolved);
    assert_eq!(ws, vec!["c.json".to_string()]);
}

#[test]
fn watch_set_does_not_depend_on_match_order() {
    let cfg = config();
    let first = vec![
        PatternMatches::Matched { entries: vec![file("x"), file("y")] },
        PatternMatches::Matched { entries: vec![file("z")] },
        PatternMatches::Invalid,
    ];
    let second = vec![
        PatternMatches::Matched { entries: vec![file("y"), file("x"), file("y")] },
        PatternMatches::Matched { entries: vec![file("z")] },
        PatternMatches::Invalid,
    ];
    let c = "c.json".to_string();
    let a = cfg.get_files_to_watch(&c, &first);
    let b = cfg.get_files_to_watch(&c, &second);
    assert_eq!(as_set(&a), as_set(&b));
    assert_eq!(a.len(), 4);
    assert_eq!(b.len(), 4);
}

#[test]
fn config_file_already_matched_is_not_repeated() {
    let cfg = Config { projects: vec![Project { input_paths: vec!["*.json".to_string()] }] };
    let resolved = vec![PatternMatches::Matched { entries: vec![file("c.json")] }];
    assert_eq!(cfg.get_files_to_watch(&"c.json".to_string(), &resolved), vec!["c.json".to_string()]);
}

#[test]
fn watcher_keeps_its_settings() {
    let w = GrimoireWatcher::new("/proj".to_string(), vec!["/proj/a.css".to_string()], 300);
    assert_eq!(w.base_dir(), "/proj");
    assert_eq!(w.files_to_watch(), &vec!["/proj/a.css".to_string()]);
    assert_eq!(w.debounce_ms(), 300);
}

#[test]
fn watch_dirs_are_the_parents_once() {
    let w = GrimoireWatcher::new(
        "/proj".to_string(),
        vec![
            "/proj/src/a.css".to_string(),
            "/proj/src/b.css".to_string(),
            "/proj/pages/i.html".to_string(),
            "/".to_string(),
        ],
        300,
    );
    let dirs = w.watch_dirs();
    assert_eq!(dirs, vec!["/proj/src".to_string(), "/proj/pages".to_string()]);
}

#[test]
fn watcher_aggregator_uses_its_files_and_window() {
    let w = GrimoireWatcher::new("/proj".to_string(), vec!["/proj/a.css".to_string()], 200);
    let mut agg = w.aggregator();
    assert!(agg.on_change(&"/proj/a.css".to_string(), 0));
    assert!(!agg.on_change(&"/proj/b.css".to_string(), 0));
    assert!(!agg.poll(199));
    assert!(agg.poll(200));
}

use grimoire_watcher::aggregator::{is_watched, ChangeAggregator};

fn aggregator(window_ms: u64, paths: &[&str]) -> ChangeAggregator {
    ChangeAggregator::new(window_ms, paths.iter().map(|p| p.to_string()).collect())
}

#[test]
fn watched_paths_are_recognised() {
    let ws = vec!["/p/a.css".to_string(), "/p/b.css".to_string()];
    assert!(is_watched(&ws, &"/p/b.css".to_string()));
    assert!(!is_watched(&ws, &"/p/c.css".to_string()));
    assert!(!is_watched(&Vec::new(), &"/p/a.css".to_string()));
}

#[test]
fn burst_of_changes_fires_once_after_the_window() {
    let mut agg = aggregator(300, &["/p/a.css"]);
    let a = "/p/a.css".to_string();
    assert!(agg.on_change(&a, 1000));
    assert!(!agg.poll(1100));
    assert!(agg.on_change(&a, 1150));
    assert!(!agg.poll(1200));
    assert!(agg.on_change(&a, 1250));
    assert!(!agg.poll(1300));
    assert!(!agg.poll(1549));
    assert!(agg.poll(1550));
    assert!(!agg.poll(1600));
    assert!(!agg.poll(5000));
    assert!(!agg.is_pending());
}

#[test]
fn separated_changes_fire_twice() {
    let mut agg = aggregator(300, &["/p/a.css", "/p/b.css"]);
    let mut fired = 0;
    agg.on_change(&"/p/a.css".to_string(), 0);
    for t in (0..=2000u64).step_by(100) {
        if t == 1000 {
            agg.on_change(&"/p/b.css".to_string(), t);
        }
        if agg.poll(t) {
            fired += 1;
        }
    }
    assert_eq!(fired, 2);
}

#[test]
fn unwatched_changes_never_fire() {
    let mut agg = aggregator(300, &["/p/a.css"]);
    assert!(!agg.on_change(&"/p/other.css".to_string(), 0));
    assert!(!agg.on_change(&"/p/a.css.swp".to_string(), 50));
    for t in (0..=2000u64).step_by(100) {
        assert!(!agg.poll(t));
    }
    assert!(!agg.is_pending());
}

#[test]
fn change_restarts_the_window() {
    let mut agg = aggregator(300, &["/p/a.css"]);
    let a = "/p/a.css".to_string();
    agg.on_change(&a, 0);
    agg.on_change(&a, 250);
    assert!(!agg.poll(300));
    assert!(!agg.poll(549));
    assert!(agg.poll(550));
}

#[test]
fn poll_before_last_change_does_not_fire() {
    let mut agg = aggregator(300, &["/p/a.css"]);
    agg.on_change(&"/p/a.css".to_string(), 1000);
    assert!(!agg.poll(500));
    assert!(agg.is_pending());
}

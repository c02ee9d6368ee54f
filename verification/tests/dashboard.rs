use vpsguard::dashboard::{App, Row};
use vpsguard::types::State;

fn row(name: &str, state: State) -> Row {
    Row {
        name: name.to_string(),
        summary: String::new(),
        state,
        detail: String::new(),
    }
}

fn app() -> App {
    App {
        rows: vec![
            row("ssh", State::Compliant),
            row("firewall", State::Drift),
            row("docker", State::NotApplicable),
        ],
        ..App::default()
    }
}

#[test]
fn selection_wraps_both_ways() {
    let mut a = app();
    a.prev();
    assert_eq!(a.selected, 2);
    a.next();
    assert_eq!(a.selected, 0);
    a.next();
    a.next();
    assert_eq!(a.current().unwrap().name, "docker");
}

#[test]
fn toggling_twice_unmarks() {
    let mut a = app();
    a.next();
    a.toggle_mark();
    assert_eq!(a.marked, vec!["firewall".to_string()]);
    a.toggle_mark();
    assert!(a.marked.is_empty());
}

#[test]
fn targets_are_marked_names_sorted_or_all_rows() {
    let mut a = app();
    assert_eq!(a.targets(), vec!["ssh", "firewall", "docker"]);
    a.toggle_mark();
    a.next();
    a.next();
    a.toggle_mark();
    assert_eq!(a.targets(), vec!["docker", "ssh"]);
}

#[test]
fn log_keeps_the_last_five_hundred_lines() {
    let mut a = App::default();
    for i in 0..510 {
        a.push_log(format!("line {i}"));
    }
    assert_eq!(a.log.len(), 500);
    assert_eq!(a.log[0], "line 10");
    assert_eq!(a.log[499], "line 509");
}

#[test]
fn score_counts_compliant_over_applicable() {
    assert_eq!(app().score(), (1, 2));
    assert_eq!(App::default().score(), (0, 0));
}

#[test]
fn empty_dashboard_has_no_current_row() {
    let mut a = App::default();
    a.next();
    a.toggle_mark();
    assert!(a.current().is_none());
    assert!(a.marked.is_empty());
}

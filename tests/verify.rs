use clearning::watch::{ends_with, hint_after, on_change, resolve, triggers, Change, Phase, WatchSession};
use clearning::{run, verify, Action, Exercise, Sequencer};

fn list(paths: &[&str]) -> Vec<Exercise> {
    paths
        .iter()
        .map(|p| Exercise {
            name: p.to_string(),
            path: p.to_string(),
            hint: format!("hint for {}", p),
        })
        .collect()
}

/// Drives a pass: each exercise's answers are (compiles, runs, done).
fn drive(mut s: Sequencer, answers: &[(bool, bool, bool)]) -> (Vec<Action>, Result<(), usize>) {
    let mut seen = Vec::new();
    loop {
        if let Some(r) = s.outcome() {
            return (seen, r);
        }
        let a = s.next();
        seen.push(a);
        let ok = match a {
            Action::Compile(i) => answers[i].0,
            Action::Run(i) => answers[i].1,
            Action::Inspect(i) => answers[i].2,
            _ => unreachable!(),
        };
        s.advance(ok);
    }
}

#[test]
fn halts_at_first_pending() {
    let ex = list(&["a.c", "b.c", "c.c"]);
    let (seen, r) = drive(verify(&ex, 0), &[(true, true, true), (true, true, false), (true, true, true)]);
    assert_eq!(r, Err(1));
    assert_eq!(
        seen,
        vec![
            Action::Compile(0),
            Action::Run(0),
            Action::Inspect(0),
            Action::Compile(1),
            Action::Run(1),
            Action::Inspect(1)
        ]
    );
    assert!(!seen.contains(&Action::Compile(2)));
}

#[test]
fn resumed_pass_skips_earlier_exercises() {
    let ex = list(&["a.c", "b.c", "c.c"]);
    let (seen, r) = drive(verify(&ex, 1), &[(false, false, false), (true, true, true), (true, true, true)]);
    assert_eq!(r, Ok(()));
    assert_eq!(seen[0], Action::Compile(1));
    assert!(!seen.contains(&Action::Compile(0)));
    assert_eq!(seen.len(), 6);
}

#[test]
fn compile_and_run_failures_stop_the_pass() {
    let ex = list(&["a.c", "b.c"]);
    let (seen, r) = drive(verify(&ex, 0), &[(false, true, true), (true, true, true)]);
    assert_eq!(r, Err(0));
    assert_eq!(seen, vec![Action::Compile(0)]);
    let (seen, r) = drive(verify(&ex, 0), &[(true, true, true), (true, false, true)]);
    assert_eq!(r, Err(1));
    assert_eq!(seen.last(), Some(&Action::Run(1)));
}

#[test]
fn empty_or_finished_list_passes() {
    assert_eq!(verify(&list(&[]), 0).outcome(), Some(Ok(())));
    assert_eq!(verify(&list(&["a.c"]), 1).outcome(), Some(Ok(())));
}

#[test]
fn single_run_ignores_marker() {
    let ex = list(&["a.c"]);
    let (seen, r) = drive(run(&ex[0]), &[(true, true, false)]);
    assert_eq!(r, Ok(()));
    assert_eq!(seen, vec![Action::Compile(0), Action::Run(0)]);
    let (_, r) = drive(run(&ex[0]), &[(true, false, true)]);
    assert_eq!(r, Err(0));
}

#[test]
fn events_that_trigger() {
    assert!(triggers(Change::Write, "/x/exercises/a.c", true));
    assert!(triggers(Change::Create, "a.c", true));
    assert!(triggers(Change::Chmod, "a.c", true));
    assert!(!triggers(Change::Write, "a.c", false));
    assert!(!triggers(Change::Remove, "a.c", true));
    assert!(!triggers(Change::Write, "a.rs", true));
    assert!(!triggers(Change::Write, "/x/.c", true));
}

#[test]
fn paths_match_by_whole_components() {
    assert!(ends_with("/home/u/exercises/a.c", "exercises/a.c"));
    assert!(ends_with("exercises/a.c", "exercises/a.c"));
    assert!(!ends_with("/home/u/myexercises/a.c", "exercises/a.c"));
    assert!(!ends_with("a.c", "exercises/a.c"));
    assert!(!ends_with("a.c", ""));
}

#[test]
fn changed_file_resolves_to_its_position() {
    let ex = list(&["exercises/a.c", "exercises/b.c", "exercises/c.c"]);
    assert_eq!(resolve(&ex, "/w/exercises/b.c"), Some(1));
    assert_eq!(resolve(&ex, "/w/exercises/z.c"), None);
    assert_eq!(on_change(&ex, Change::Write, "/w/exercises/c.c", true), Some(2));
    assert_eq!(on_change(&ex, Change::Remove, "/w/exercises/c.c", true), None);
    assert_eq!(hint_after(&ex, 1), "hint for exercises/b.c");
}

#[test]
fn watch_session_follows_passes_and_events() {
    let ex = list(&["exercises/a.c", "exercises/b.c"]);
    let mut s = WatchSession::new();
    assert_eq!(s.phase(), Phase::Verifying(0));
    assert_eq!(s.hint(), None);
    s.on_outcome(&ex, Err(1));
    assert_eq!(s.phase(), Phase::Awaiting);
    assert_eq!(s.hint(), Some("hint for exercises/b.c".to_string()));
    s.on_event(&ex, Change::Write, "/w/exercises/z.c", true);
    assert_eq!(s.phase(), Phase::Awaiting);
    s.on_event(&ex, Change::Remove, "/w/exercises/a.c", false);
    assert_eq!(s.phase(), Phase::Awaiting);
    s.on_event(&ex, Change::Write, "/w/exercises/a.c", true);
    assert_eq!(s.phase(), Phase::Verifying(0));
    s.on_event(&ex, Change::Write, "/w/exercises/b.c", true);
    assert_eq!(s.phase(), Phase::Verifying(0));
    s.on_outcome(&ex, Ok(()));
    assert_eq!(s.phase(), Phase::Finished);
    assert_eq!(s.hint(), Some("hint for exercises/b.c".to_string()));
}

use clearning::exercise::{not_done_marker, temp_file};
use clearning::text::Marker;
use clearning::{Capture, ContextLine, Exercise, ExerciseOutput, State};

fn example(path: &str) -> Exercise {
    Exercise {
        name: String::from("example"),
        path: String::from(path),
        hint: String::from(""),
    }
}

const THREE: &str = "#include <stdio.h>\n// exercise for test\n\n// I AM NOT DONE\n\nint main() {\n    printf(\"Hello World!\\n\");\n    return 0;\n}\n";

fn state_of(source: &str) -> State {
    let marker = not_done_marker().unwrap();
    example("exercise_test/x.c").state(source, &marker)
}

fn capture(success: bool, stdout: &[u8], stderr: &[u8]) -> Capture {
    Capture { success, stdout: stdout.to_vec(), stderr: stderr.to_vec() }
}

#[test]
fn test_run() {
    let exercise = example("exercise_test/HelloWorldTWO.c");
    let compiled = exercise.compile(&capture(true, b"", b"")).unwrap();
    let result = compiled.run(&capture(true, b"Hello World!\n", b"")).unwrap();
    assert!(result.stdout.contains("Hello World!"));
}

#[test]
fn state() {
    let exercise = example("exercise_test/HelloWorldThree.c");
    let marker = not_done_marker().unwrap();
    let state = exercise.state(THREE, &marker);
    let expected = vec![
        ContextLine { line: "// exercise for test".to_string(), number: 2, important: false },
        ContextLine { line: "".to_string(), number: 3, important: false },
        ContextLine { line: "// I AM NOT DONE".to_string(), number: 4, important: true },
        ContextLine { line: "".to_string(), number: 5, important: false },
        ContextLine { line: "int main() {".to_string(), number: 6, important: false },
    ];
    assert_eq!(state, State::Pending(expected));
}

#[test]
fn no_marker_is_done() {
    assert_eq!(state_of("int main() {\n    return 0;\n}\n"), State::Done);
    assert_eq!(state_of(""), State::Done);
    assert_eq!(state_of("// I AM DONE\n"), State::Done);
}

#[test]
fn marker_split_over_lines_is_done() {
    // the whole text matches, no single line does
    assert_eq!(state_of("//\nI AM NOT DONE\n"), State::Done);
}

#[test]
fn marker_tolerates_extra_whitespace() {
    let st = state_of("  ///   I   AM  NOT   DONE\n");
    match st {
        State::Pending(ctx) => {
            assert_eq!(ctx.len(), 1);
            assert_eq!(ctx[0].number, 1);
            assert!(ctx[0].important);
        }
        State::Done => panic!("expected pending"),
    }
}

#[test]
fn marker_ignores_letter_case() {
    let st = state_of("a\n  // i am  not done\nb\n");
    let expected = vec![
        ContextLine { line: "a".to_string(), number: 1, important: false },
        ContextLine { line: "  // i am  not done".to_string(), number: 2, important: true },
        ContextLine { line: "b".to_string(), number: 3, important: false },
    ];
    assert_eq!(st, State::Pending(expected));
    match state_of("///I Am\tNot DONE") {
        State::Pending(ctx) => assert!(ctx[0].important && ctx[0].number == 1),
        State::Done => panic!("expected pending"),
    }
}

#[test]
fn marker_on_first_line_clamps_window() {
    let st = state_of("// I AM NOT DONE\na\nb\nc\nd\n");
    let expected = vec![
        ContextLine { line: "// I AM NOT DONE".to_string(), number: 1, important: true },
        ContextLine { line: "a".to_string(), number: 2, important: false },
        ContextLine { line: "b".to_string(), number: 3, important: false },
    ];
    assert_eq!(st, State::Pending(expected));
}

#[test]
fn marker_on_last_line_and_first_of_two() {
    let st = state_of("a\nb\nc\n// I AM NOT DONE\r\n// I AM NOT DONE");
    let expected = vec![
        ContextLine { line: "b".to_string(), number: 2, important: false },
        ContextLine { line: "c".to_string(), number: 3, important: false },
        ContextLine { line: "// I AM NOT DONE".to_string(), number: 4, important: true },
        ContextLine { line: "// I AM NOT DONE".to_string(), number: 5, important: false },
    ];
    assert_eq!(st, State::Pending(expected));
}

#[test]
fn states_compare_by_content() {
    let a = ContextLine { line: "x".to_string(), number: 1, important: true };
    let b = ContextLine { line: "x".to_string(), number: 1, important: false };
    assert_ne!(State::Pending(vec![a]), State::Pending(vec![b]));
    assert_ne!(State::Done, State::Pending(vec![]));
    assert_eq!(State::Pending(vec![]), State::Pending(vec![]));
}

#[test]
fn run_success_keeps_output() {
    let exercise = example("a.c");
    let compiled = exercise.compile(&capture(true, b"", b"")).unwrap();
    let out = compiled.run(&capture(true, b"out", b"err")).unwrap();
    assert_eq!(out.stdout, "out");
    assert_eq!(out.stderr, "err");
    assert_eq!(compiled.exercise().name, "example");
}

#[test]
fn run_failure_keeps_output() {
    let exercise = example("a.c");
    let compiled = exercise.compile(&capture(true, b"", b"")).unwrap();
    let out = compiled.run(&capture(false, b"partial", b"boom")).unwrap_err();
    assert_eq!(out.stdout, "partial");
    assert_eq!(out.stderr, "boom");
}

#[test]
fn compile_failure_returns_compiler_output() {
    let exercise = example("a.c");
    match exercise.compile(&capture(false, b"", b"a.c:1: error")) {
        Err(ExerciseOutput { stdout, stderr }) => {
            assert_eq!(stdout, "");
            assert_eq!(stderr, "a.c:1: error");
        }
        Ok(_) => panic!("expected a compile failure"),
    }
}

#[test]
fn lossy_decoding_replaces_invalid_bytes() {
    let out = ExerciseOutput::from_capture(&capture(false, b"", &[b'o', 0xff, b'k']));
    assert_eq!(out.stderr, "o\u{FFFD}k");
    let out = ExerciseOutput::from_capture(&capture(true, &[0xc3, 0xa9, 0xff], b""));
    assert_eq!(out.stdout, "\u{e9}\u{FFFD}");
}

#[test]
fn context_lines_drop_line_endings() {
    let st = state_of("a\r\n// I AM NOT DONE\n\nc\r");
    let expected = vec![
        ContextLine { line: "a".to_string(), number: 1, important: false },
        ContextLine { line: "// I AM NOT DONE".to_string(), number: 2, important: true },
        ContextLine { line: "".to_string(), number: 3, important: false },
        ContextLine { line: "c\r".to_string(), number: 4, important: false },
    ];
    assert_eq!(st, State::Pending(expected));
}

#[test]
fn marker_refuses_bad_pattern() {
    assert!(Marker::new("(").is_none());
    let m = Marker::new("ab+c").unwrap();
    assert!(m.is_match("xxabbbc"));
    assert!(!m.is_match("ac"));
}

#[test]
fn temp_file_name() {
    assert_eq!(temp_file(1234, "ThreadId(7)"), "./temp_1234_ThreadId7");
    assert_eq!(temp_file(0, "ThreadId(12)"), "./temp_0_ThreadId12");
    assert_ne!(temp_file(5, "ThreadId(1)"), temp_file(5, "ThreadId(2)"));
}

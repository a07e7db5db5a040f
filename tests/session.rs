use rscli::{prompt, synthesize, Action, Event, Session, SessionBuffer};

fn buffer_of(lines: &[&str]) -> SessionBuffer {
    SessionBuffer::from_lines(lines.iter().map(|l| l.to_string()).collect())
}

fn lines(buffer: &SessionBuffer) -> Vec<String> {
    buffer.lines().clone()
}

fn expect_compile(action: Action) -> String {
    match action {
        Action::Compile(text) => text,
        _ => panic!("expected a compile action"),
    }
}

fn expect_read(action: Action) -> String {
    match action {
        Action::ReadLine(p) => p,
        _ => panic!("expected a read action"),
    }
}

#[test]
fn synthesize_empty_buffer() {
    let b = SessionBuffer::new();
    assert_eq!(synthesize(&b, "let x = 5;"), "#[allow(unused)]\nfn main() {\n\nlet x = 5;\n}");
}

#[test]
fn synthesize_keeps_lines_in_order() {
    let b = buffer_of(&["let b = 2;", "let a = 1;", "let b = 2;"]);
    assert_eq!(
        synthesize(&b, "println!(\"{}\", a);"),
        "#[allow(unused)]\nfn main() {\nlet b = 2;\nlet a = 1;\nlet b = 2;\nprintln!(\"{}\", a);\n}"
    );
}

#[test]
fn synthesize_twice_is_identical() {
    let b = buffer_of(&["let x = 5;"]);
    let first = synthesize(&b, "let y = x;");
    let second = synthesize(&b, "let y = x;");
    assert_eq!(first, second);
}

#[test]
fn prompt_plain_and_with_session() {
    assert_eq!(prompt(None), "> ");
    assert_eq!(prompt(Some("work.rs")), "work.rs | > ");
}

#[test]
fn text_round_trip() {
    let b = buffer_of(&["let x = 5;", "", "println!(\"{}\", x);"]);
    let text = b.to_text();
    assert_eq!(text, "let x = 5;\n\nprintln!(\"{}\", x);");
    assert_eq!(lines(&SessionBuffer::from_text(&text)), lines(&b));
}

#[test]
fn text_of_empty_buffer() {
    let b = SessionBuffer::new();
    assert_eq!(b.to_text(), "");
    assert_eq!(SessionBuffer::from_text("").len(), 0);
}

#[test]
fn text_with_trailing_break() {
    let b = SessionBuffer::from_text("a\nb\n");
    assert_eq!(lines(&b), vec!["a".to_string(), "b".to_string(), String::new()]);
}

#[test]
fn text_with_unicode() {
    let b = SessionBuffer::from_text("let s = \"é\";\nlet t = 'ß';");
    assert_eq!(lines(&b), vec!["let s = \"é\";".to_string(), "let t = 'ß';".to_string()]);
}

#[test]
fn append_keeps_duplicates() {
    let mut b = SessionBuffer::new();
    b.append("let x = 1;".to_string());
    b.append("let x = 1;".to_string());
    assert_eq!(lines(&b), vec!["let x = 1;".to_string(), "let x = 1;".to_string()]);
}

#[test]
fn first_line_is_committed() {
    let mut s = Session::new(SessionBuffer::new(), None);
    assert_eq!(expect_read(s.pending()), "> ");
    let text = expect_compile(s.step(Event::Line("let x = 5;".to_string())));
    assert_eq!(text, "#[allow(unused)]\nfn main() {\n\nlet x = 5;\n}");
    assert!(matches!(s.step(Event::CompileFinished(true)), Action::Run));
    assert_eq!(expect_read(s.step(Event::RunFinished)), "> ");
    assert_eq!(lines(s.buffer()), vec!["let x = 5;".to_string()]);
}

#[test]
fn second_line_is_committed_after_first() {
    let mut s = Session::new(buffer_of(&["let x = 5;"]), None);
    let text = expect_compile(s.step(Event::Line("println!(\"{}\", x);".to_string())));
    assert_eq!(text, "#[allow(unused)]\nfn main() {\nlet x = 5;\nprintln!(\"{}\", x);\n}");
    assert!(matches!(s.step(Event::CompileFinished(true)), Action::Run));
    expect_read(s.step(Event::RunFinished));
    assert_eq!(
        lines(s.buffer()),
        vec!["let x = 5;".to_string(), "println!(\"{}\", x);".to_string()]
    );
}

#[test]
fn failed_compile_discards_line() {
    let mut s = Session::new(buffer_of(&["let x = 5;"]), None);
    let text = expect_compile(s.step(Event::Line("let x = \"oops\"".to_string())));
    assert_eq!(text, "#[allow(unused)]\nfn main() {\nlet x = 5;\nlet x = \"oops\"\n}");
    assert_eq!(expect_read(s.step(Event::CompileFinished(false))), "> ");
    assert_eq!(lines(s.buffer()), vec!["let x = 5;".to_string()]);
    assert!(!s.is_stopped());
}

#[test]
fn interrupt_saves_session() {
    let mut s = Session::new(buffer_of(&["let x = 5;", "let y = x;"]), Some("s.rs".to_string()));
    assert_eq!(expect_read(s.pending()), "s.rs | > ");
    match s.step(Event::Interrupted) {
        Action::Save(path, text) => {
            assert_eq!(path, "s.rs");
            assert_eq!(text, "let x = 5;\nlet y = x;");
        }
        _ => panic!("expected a save action"),
    }
    assert!(s.is_stopped());
    assert_eq!(lines(s.buffer()), vec!["let x = 5;".to_string(), "let y = x;".to_string()]);
}

#[test]
fn end_of_input_without_session_exits() {
    let mut s = Session::new(SessionBuffer::new(), None);
    assert!(matches!(s.step(Event::EndOfInput), Action::Exit));
    assert!(s.is_stopped());
}

#[test]
fn input_failure_stops() {
    let mut s = Session::new(buffer_of(&["let a = 1;"]), Some("f".to_string()));
    assert!(matches!(s.step(Event::InputFailed), Action::Save(_, _)));
    assert!(s.is_stopped());
}

#[test]
fn stray_event_changes_nothing() {
    let mut s = Session::new(buffer_of(&["let a = 1;"]), None);
    assert_eq!(expect_read(s.step(Event::RunFinished)), "> ");
    expect_compile(s.step(Event::Line("let b = a;".to_string())));
    let again = expect_compile(s.step(Event::Line("other".to_string())));
    assert_eq!(again, "#[allow(unused)]\nfn main() {\nlet a = 1;\nlet b = a;\n}");
    assert_eq!(lines(s.buffer()), vec!["let a = 1;".to_string()]);
}

#[test]
fn nonzero_exit_still_commits() {
    let mut s = Session::new(SessionBuffer::new(), None);
    expect_compile(s.step(Event::Line("panic!();".to_string())));
    s.step(Event::CompileFinished(true));
    s.step(Event::RunFinished);
    assert_eq!(s.buffer().len(), 1);
}

use nebula::facet::{join_lines, respond, EditorFacet, FacetData, FilesFacet, TerminalFacet};
use nebula::keys::Key;

fn text_of(data: Option<FacetData>) -> Option<String> {
    match data {
        Some(FacetData::Text(t)) => Some(t),
        _ => None,
    }
}

fn run(t: &mut TerminalFacet, line: &str) {
    t.on_text(line);
    t.on_key(Key::Enter, true);
}

fn screen(t: &TerminalFacet) -> String {
    text_of(t.provide()).unwrap()
}

#[test]
fn terminal_answers_its_commands() {
    assert_eq!(respond("help"), "Commands: help, clear, echo, exit");
    assert_eq!(respond("clear"), "");
    assert_eq!(respond("echo hello world"), "hello world");
    assert_eq!(respond("echo "), "");
    assert_eq!(respond("echo"), "Unknown command: echo");
    assert_eq!(respond("echo  two"), " two");
    assert_eq!(respond("echo é🙂"), "é🙂");
    assert_eq!(respond(""), "");
    assert_eq!(respond("ls -la"), "Unknown command: ls -la");
    assert_eq!(respond("Help"), "Unknown command: Help");
    assert_eq!(respond(" help"), "Unknown command:  help");
}

#[test]
fn lines_are_joined_with_line_feeds() {
    let v = |l: &[&str]| -> Vec<String> { l.iter().map(|s| s.to_string()).collect() };
    assert_eq!(join_lines(&v(&[])), "");
    assert_eq!(join_lines(&v(&["a"])), "a");
    assert_eq!(join_lines(&v(&["a", "b", "c"])), "a\nb\nc");
    assert_eq!(join_lines(&v(&["", ""])), "\n");
    assert_eq!(join_lines(&v(&["a", ""])), "a\n");
}

#[test]
fn terminal_shows_the_banner_first() {
    let t = TerminalFacet::new();
    assert_eq!(screen(&t), "Aether Terminal v0.1\nType 'help' for commands\n");
    assert!(t.suggest().is_none());
}

#[test]
fn terminal_runs_a_line_on_enter() {
    let mut t = TerminalFacet::new();
    t.on_text("ech");
    t.on_text("o hi");
    // Releasing a key does nothing.
    t.on_key(Key::Enter, false);
    t.on_key(Key::A, true);
    t.on_key(Key::Enter, true);
    assert_eq!(
        screen(&t),
        "Aether Terminal v0.1\nType 'help' for commands\n\n$ echo hi\nhi"
    );
    run(&mut t, "");
    assert!(screen(&t).ends_with("$ echo hi\nhi\n$ "));
    run(&mut t, "frobnicate");
    assert!(screen(&t).ends_with("$ frobnicate\nUnknown command: frobnicate"));
    run(&mut t, "help");
    assert!(screen(&t).ends_with("$ help\nCommands: help, clear, echo, exit"));
}

#[test]
fn terminal_clear_wipes_the_screen() {
    let mut t = TerminalFacet::new();
    run(&mut t, "echo one");
    run(&mut t, "clear");
    assert_eq!(screen(&t), "");
    run(&mut t, "echo two");
    assert_eq!(screen(&t), "$ echo two\ntwo");
}

#[test]
fn terminal_backspace_takes_the_last_character() {
    let mut t = TerminalFacet::new();
    t.on_text("echo é🙂x");
    t.on_key(Key::Backspace, true);
    t.on_key(Key::Backspace, true);
    t.on_key(Key::Backspace, false);
    t.on_key(Key::Enter, true);
    assert!(screen(&t).ends_with("$ echo é\né"));
    for _ in 0..3 {
        t.on_key(Key::Backspace, true);
    }
    t.on_key(Key::Enter, true);
    assert!(screen(&t).ends_with("é\n$ "));
}

#[test]
fn terminal_takes_text_from_other_facets() {
    let mut t = TerminalFacet::new();
    t.init(Some(FacetData::Text("echo from init".to_string())));
    t.on_key(Key::Enter, true);
    assert!(screen(&t).ends_with("from init"));
    t.on_text("typed");
    t.receive(FacetData::Text("echo replaced".to_string()));
    t.receive(FacetData::Binary(vec![1, 2, 3]));
    t.receive(FacetData::Json("{}".to_string()));
    t.receive(FacetData::Reference { uri: "file:///x".to_string() });
    t.init(None);
    t.on_key(Key::Enter, true);
    assert!(screen(&t).ends_with("$ echo replaced\nreplaced"));
}

#[test]
fn editor_edits_at_the_cursor() {
    let mut e = EditorFacet::new();
    assert_eq!(e.text(), "");
    assert_eq!(e.cursor(), 0);
    e.on_text("héllo");
    assert_eq!((e.text(), e.cursor()), ("héllo", 6));
    e.on_key(Key::Left, true);
    e.on_key(Key::Left, true);
    e.on_text("--");
    assert_eq!((e.text(), e.cursor()), ("hél--lo", 6));
    e.on_key(Key::Enter, true);
    assert_eq!((e.text(), e.cursor()), ("hél--\nlo", 7));
    e.on_key(Key::Backspace, true);
    e.on_key(Key::Backspace, true);
    e.on_key(Key::Backspace, true);
    assert_eq!((e.text(), e.cursor()), ("héllo", 4));
    e.on_key(Key::Right, true);
    e.on_key(Key::Right, true);
    e.on_key(Key::Right, true);
    assert_eq!(e.cursor(), 6);
    e.on_key(Key::Right, false);
    e.on_key(Key::Backspace, false);
    e.on_key(Key::Tab, true);
    assert_eq!((e.text(), e.cursor()), ("héllo", 6));
    e.on_text("");
    assert_eq!(e.text(), "héllo");
}

#[test]
fn editor_stops_at_the_ends() {
    let mut e = EditorFacet::new();
    e.on_key(Key::Backspace, true);
    e.on_key(Key::Left, true);
    e.on_key(Key::Right, true);
    assert_eq!((e.text(), e.cursor()), ("", 0));
    e.on_text("é");
    e.on_key(Key::Left, true);
    e.on_key(Key::Left, true);
    e.on_key(Key::Backspace, true);
    assert_eq!((e.text(), e.cursor()), ("é", 0));
}

#[test]
fn editor_loads_and_hands_out_documents() {
    let mut e = EditorFacet::new();
    e.on_text("draft");
    e.init(Some(FacetData::Text("# Title\nbody".to_string())));
    assert_eq!((e.text(), e.cursor()), ("# Title\nbody", 12));
    e.on_text("!");
    assert_eq!(text_of(e.provide()).unwrap(), "# Title\nbody!");
    e.receive(FacetData::Binary(vec![0]));
    e.init(None);
    assert_eq!(e.text(), "# Title\nbody!");
    e.receive(FacetData::Text("ü".to_string()));
    assert_eq!((e.text(), e.cursor()), ("ü", 2));
    assert_eq!(e.suggest(), Some("Save document".to_string()));
}

#[test]
fn file_browser_hands_out_the_selected_path() {
    let mut f = FilesFacet::new();
    assert_eq!(text_of(f.provide()).unwrap(), "/..");
    f.on_key(Key::Down, true);
    f.init(Some(FacetData::Text("/mnt/".to_string())));
    assert_eq!(text_of(f.provide()).unwrap(), "/mnt/home/");
    f.init(Some(FacetData::Binary(vec![])));
    f.init(None);
    assert_eq!(f.selected_path(), Some("/mnt/home/".to_string()));
}

use rzstd::pattern::Pattern;
use rzstd::sink::LineSink;

#[test]
fn highlight_wraps_exactly_the_match() {
    colored::control::set_override(true);
    let mut s = LineSink::new(Pattern::new("error").unwrap());
    let outs = s.feed(b"an error was seen\n").unwrap();
    colored::control::unset_override();
    assert_eq!(outs.len(), 1);
    let line = &outs[0];
    assert!(line.starts_with("an "));
    assert!(line.ends_with("\u{1b}[0m was seen\n"));
    assert!(line.contains("\u{1b}[31m"));
    assert!(line.contains("error"));
}

#[test]
fn only_the_first_match_of_a_line_is_highlighted() {
    colored::control::set_override(true);
    let mut s = LineSink::new(Pattern::new("err").unwrap());
    let outs = s.feed(b"err and err again\n").unwrap();
    colored::control::unset_override();
    assert_eq!(outs.len(), 1);
    let line = &outs[0];
    assert_eq!(line.matches("\u{1b}[31m").count(), 1);
    assert!(line.ends_with(" and err again\n"));
}

#[test]
fn highlight_keeps_multibyte_text_outside_the_span() {
    colored::control::set_override(true);
    let mut s = LineSink::new(Pattern::new("err").unwrap());
    let outs = s.feed("caf\u{e9} err caf\u{e9}\n".as_bytes()).unwrap();
    colored::control::unset_override();
    assert_eq!(outs.len(), 1);
    let line = &outs[0];
    assert!(line.starts_with("caf\u{e9} "));
    assert!(line.ends_with(" caf\u{e9}\n"));
    assert!(line.contains("\u{1b}[31m"));
}

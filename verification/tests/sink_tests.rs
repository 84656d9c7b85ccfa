use rzstd::errors::FileError;
use rzstd::pattern::Pattern;
use rzstd::sink::LineSink;

fn plain_sink(pat: &str) -> LineSink {
    colored::control::set_override(false);
    LineSink::new(Pattern::new(pat).expect("pattern must compile"))
}

#[test]
fn matching_lines_printed_once_in_order() {
    let mut s = plain_sink("error");
    let outs = s.feed(b"ok\nerror: disk full\nfine\nanother error here\n").unwrap();
    assert_eq!(
        outs,
        vec!["error: disk full\n".to_string(), "another error here\n".to_string()]
    );
    let tail = s.finish().unwrap();
    assert!(tail.is_empty());
}

#[test]
fn non_matching_lines_never_printed() {
    let mut s = plain_sink("error");
    let outs = s.feed(b"ok\nfine\nall good\n").unwrap();
    assert!(outs.is_empty());
    assert!(s.finish().unwrap().is_empty());
}

#[test]
fn terminator_preserved_and_unterminated_last_line_searched() {
    let mut s = plain_sink("err");
    let outs = s.feed(b"first err line\nerr at end").unwrap();
    assert_eq!(outs, vec!["first err line\n".to_string()]);
    let tail = s.finish().unwrap();
    assert_eq!(tail, vec!["err at end".to_string()]);
}

#[test]
fn chunking_does_not_change_output() {
    let data: &[u8] = b"ok\nerror one\nmid\nerror two\ntail error";
    let mut whole = plain_sink("error");
    let mut all_whole = whole.feed(data).unwrap();
    all_whole.extend(whole.finish().unwrap());

    let mut pieced = plain_sink("error");
    let mut all_pieced = Vec::new();
    for byte in data {
        all_pieced.extend(pieced.feed(std::slice::from_ref(byte)).unwrap());
    }
    all_pieced.extend(pieced.finish().unwrap());

    assert_eq!(all_whole, all_pieced);
}

#[test]
fn invalid_utf8_line_fails_the_search() {
    let mut s = plain_sink("error");
    let r = s.feed(b"\xff\xfe broken\n");
    assert_eq!(r.unwrap_err(), FileError::Io);
}

#[test]
fn empty_input_gives_no_output() {
    let mut s = plain_sink("error");
    assert!(s.feed(b"").unwrap().is_empty());
    assert!(s.finish().unwrap().is_empty());
}

#[test]
fn zstd_round_trip_scenario() {
    let a_text = b"ok\nerror: disk full\n";
    let b_text = b"fine\n";
    let a_zst = zstd::encode_all(&a_text[..], 0).unwrap();
    let b_zst = zstd::encode_all(&b_text[..], 0).unwrap();

    let a_plain = zstd::decode_all(&a_zst[..]).unwrap();
    let b_plain = zstd::decode_all(&b_zst[..]).unwrap();
    assert_eq!(a_plain, a_text);
    assert_eq!(b_plain, b_text);

    let mut s = plain_sink("error");
    let mut outs = s.feed(&a_plain).unwrap();
    outs.extend(s.finish().unwrap());
    assert_eq!(outs, vec!["error: disk full\n".to_string()]);

    let mut s = plain_sink("error");
    let mut outs = s.feed(&b_plain).unwrap();
    outs.extend(s.finish().unwrap());
    assert!(outs.is_empty());
}

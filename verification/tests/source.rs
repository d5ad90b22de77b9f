use luai_orchestrator::source::source_line;

#[test]
fn source_line_picks_numbered_line() {
    let src = "local x = 1\nlocal y = 2\nreturn x + y";
    assert_eq!(source_line(src, 1), "local x = 1");
    assert_eq!(source_line(src, 2), "local y = 2");
    assert_eq!(source_line(src, 3), "return x + y");
}

#[test]
fn source_line_zero_is_first_line() {
    assert_eq!(source_line("a\nb", 0), "a");
}

#[test]
fn source_line_out_of_range_is_empty() {
    assert_eq!(source_line("a\nb", 3), "");
    assert_eq!(source_line("a\nb\n", 3), "");
    assert_eq!(source_line("", 1), "");
    assert_eq!(source_line("a", u32::MAX), "");
}

#[test]
fn source_line_strips_crlf() {
    let src = "a\r\nb\r\n\r\nc\r";
    assert_eq!(source_line(src, 1), "a");
    assert_eq!(source_line(src, 2), "b");
    assert_eq!(source_line(src, 3), "");
    assert_eq!(source_line(src, 4), "c\r");
    assert_eq!(source_line(src, 4), src.lines().nth(3).unwrap());
}

#[test]
fn source_line_unicode() {
    assert_eq!(source_line("héllo\n世界", 2), "世界");
}

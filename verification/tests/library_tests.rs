use stdecor::cli::Cli;
use stdecor::decor::{compose_fullprefix, decorate_line, Decor, DecorError, LineWrapper};
use stdecor::runner::{
    after_events, command_parts, event_action, exit_code, stream_for_key, LoopStep, RunError,
    Stream,
};

fn pieces(text: &str, width: Option<usize>) -> Vec<&str> {
    LineWrapper::new(text, width).collect_lines()
}

#[test]
fn wrapper_cuts_into_width_pieces() {
    assert_eq!(pieces("abcdefg", Some(3)), vec!["abc", "def", "g"]);
}

#[test]
fn wrapper_pieces_join_back_to_text() {
    for (text, w) in [("abcdefg", 3), ("日本語のテキスト", 2), ("", 4), ("xy", 5), ("abcdef", 1)] {
        assert_eq!(pieces(text, Some(w)).concat(), text);
    }
}

#[test]
fn wrapper_exact_multiple_has_no_empty_tail() {
    assert_eq!(pieces("abcdef", Some(3)), vec!["abc", "def"]);
    assert_eq!(pieces("abc", Some(3)), vec!["abc"]);
}

#[test]
fn wrapper_empty_text_is_one_empty_piece() {
    assert_eq!(pieces("", Some(3)), vec![""]);
    assert_eq!(pieces("", None), vec![""]);
}

#[test]
fn wrapper_without_width_keeps_text_whole() {
    assert_eq!(pieces("a long line of text", None), vec!["a long line of text"]);
}

#[test]
fn wrapper_piece_lengths_and_count() {
    let text = "abcdefghij";
    let p = pieces(text, Some(4));
    // (10 + 4 - 1) / 4 == 3 pieces, all but the last exactly 4 characters
    assert_eq!(p.len(), 3);
    assert_eq!(p[0].chars().count(), 4);
    assert_eq!(p[1].chars().count(), 4);
    assert_eq!(p[2].chars().count(), 2);
}

#[test]
fn wrapper_next_steps_then_stays_done() {
    let mut w = LineWrapper::new("abcde", Some(2));
    assert_eq!(w.next(), Some("ab"));
    assert_eq!(w.next(), Some("cd"));
    assert_eq!(w.next(), Some("e"));
    assert_eq!(w.next(), None);
    assert_eq!(w.next(), None);
}

#[test]
fn wrapper_width_zero_hands_out_empty_pieces() {
    let mut w = LineWrapper::new("ab", Some(0));
    assert_eq!(w.next(), Some(""));
    assert_eq!(w.next(), Some(""));
}

#[test]
fn fullprefix_joins_stamp_prefix_and_space() {
    assert_eq!(compose_fullprefix("", ""), "");
    assert_eq!(compose_fullprefix("", "[x]"), "[x] ");
    assert_eq!(compose_fullprefix("T0 ", ""), "T0  ");
    assert_eq!(compose_fullprefix("T0 ", "[x]"), "T0 [x] ");
}

#[test]
fn decorate_line_keeps_existing_newline() {
    assert_eq!(decorate_line("p ", None, "abc\n"), vec!["p abc\n"]);
}

#[test]
fn decorate_line_newline_inside_a_piece() {
    assert_eq!(decorate_line("p ", Some(4), "a\nbc"), vec!["p a\n", "p bc\n"]);
}

#[test]
fn decorate_line_lead_too_wide_does_not_wrap() {
    assert_eq!(decorate_line("abcdef ", Some(4), "xyz"), vec!["abcdef xyz\n"]);
    assert_eq!(decorate_line("abc ", Some(4), "xyz"), vec!["abc xyz\n"]);
}

#[test]
fn decorate_line_empty_text() {
    assert_eq!(decorate_line("[e] ", Some(10), ""), vec!["[e] \n"]);
}

#[test]
fn decorated_lines_fit_the_width() {
    let lead = "[job] ";
    let width = 9;
    let out = decorate_line(lead, Some(width), "the quick brown fox jumps");
    assert!(out.len() >= 1);
    for line in &out {
        assert!(line.starts_with(lead));
        assert!(line.ends_with('\n'));
        assert!(line.chars().count() <= width + 1);
    }
    let text: String = out
        .iter()
        .map(|l| l[lead.len()..l.len() - 1].to_string())
        .collect();
    assert_eq!(text, "the quick brown fox jumps");
}

#[test]
fn new_reports_prefix_length_in_bytes() {
    assert_eq!(
        Decor::new("日本語", false, Some(3)).unwrap_err(),
        DecorError::PrefixTooLong { prefix_len: 9, width: 3 }
    );
    assert_eq!(
        Decor::new("abc", false, Some(4)).unwrap_err(),
        DecorError::PrefixTooLong { prefix_len: 3, width: 4 }
    );
    assert!(Decor::new("abc", false, Some(5)).is_ok());
    assert!(Decor::new("a very long prefix", false, None).is_ok());
}

#[test]
fn with_stamp_counts_the_stamp() {
    assert_eq!(
        Decor::with_stamp("ab", true, Some(10), "0123456").unwrap_err(),
        DecorError::PrefixTooLong { prefix_len: 2, width: 10 }
    );
    assert!(Decor::with_stamp("ab", true, Some(11), "0123456").is_ok());
    assert!(Decor::with_stamp("ab", false, Some(10), "0123456").is_ok());
}

#[test]
fn decorate_at_leads_with_the_stamp() {
    let decor = Decor::with_stamp("p", true, Some(8), "T ").unwrap();
    assert_eq!(decor.decorate_at("T ", "abcdefg"), vec!["T p abcd\n", "T p efg\n"]);
    let plain = Decor::with_stamp("p", false, Some(8), "T ").unwrap();
    assert_eq!(plain.decorate_at("T ", "abcdefg"), vec!["p abcdef\n", "p g\n"]);
}

#[test]
fn decorate_with_date_starts_with_the_year() {
    let decor = Decor::new("[d]", true, None).unwrap();
    let out = decor.decorate("hello");
    assert_eq!(out.len(), 1);
    assert!(out[0].starts_with("20"), "got {:?}", out[0]);
    assert!(out[0].ends_with(" [d] hello\n"), "got {:?}", out[0]);
    assert!(!out[0].contains('%'));
}

#[test]
fn decor_async_line() {
    assert_eq!(stdecor::decor_async::decor_str_at("S ", "[p]", "line"), "S [p] line\n");
    assert_eq!(stdecor::decor_async::decor_str("", false, "x\n"), " x\n\n");
    let dated = stdecor::decor_async::decor_str("[p]", true, "line");
    assert!(dated.starts_with("20"), "got {:?}", dated);
    assert!(dated.ends_with(" [p] line\n"));
    assert!(!dated.contains('%'));
}

#[test]
fn writer_async_line() {
    assert_eq!(stdecor::writer_async::decor_str("[w]", false, "text"), "[w] text\n");
    assert_eq!(stdecor::writer_async::decor_str("[w]", false, "text\n"), "[w] text\n");
    assert_eq!(stdecor::writer_async::decor_str("", false, "t"), "t\n");
    let dated = stdecor::writer_async::decor_str("[w]", true, "text");
    assert!(dated.starts_with("20"));
    assert!(dated.ends_with(" [w] text\n"));
}

#[test]
fn runner_streams_and_events() {
    assert_eq!(stream_for_key(0), Stream::Stdout);
    assert_eq!(stream_for_key(1), Stream::Stderr);
    assert_eq!(event_action(0, false), Some(Stream::Stdout));
    assert_eq!(event_action(1, false), Some(Stream::Stderr));
    assert_eq!(event_action(1, true), None);
}

#[test]
fn runner_loop_decisions() {
    assert_eq!(after_events(true, &[false, false]), LoopStep::Finish);
    assert_eq!(after_events(false, &[true, true]), LoopStep::WaitThenFinish);
    assert_eq!(after_events(false, &[true, false]), LoopStep::Continue);
    assert_eq!(after_events(false, &[]), LoopStep::WaitThenFinish);
}

#[test]
fn runner_command_parts() {
    assert_eq!(command_parts(&[]), Err(RunError::NoCommand));
    let (program, args) = command_parts(&["sh", "-c", "echo hi"]).unwrap();
    assert_eq!(program, "sh");
    assert_eq!(args, vec!["-c".to_string(), "echo hi".to_string()]);
    let (program, args) = command_parts(&["true"]).unwrap();
    assert_eq!(program, "true");
    assert!(args.is_empty());
}

#[test]
fn runner_exit_codes() {
    assert_eq!(exit_code(Some(42)), 42);
    assert_eq!(exit_code(Some(0)), 0);
    assert_eq!(exit_code(None), 0);
}

#[test]
fn cli_pipe_mode() {
    let cli = Cli { prefix: String::new(), date: false, command: vec![] };
    assert!(cli.pipe_mode());
    let cli = Cli { prefix: "[x]".to_string(), date: true, command: vec!["ls".to_string()] };
    assert!(!cli.pipe_mode());
}

#[test]
fn decor_lines_fit_the_width() {
    let decor = Decor::new("[job]", false, Some(9)).unwrap();
    let out = decor.decorate("the quick brown fox jumps over");
    assert_eq!(out[0], "[job] the\n");
    for line in &out {
        assert!(line.chars().count() <= 10, "got {:?}", line);
    }
    let joined: String = out.iter().map(|l| &l["[job] ".len()..l.len() - 1]).collect();
    assert_eq!(joined, "the quick brown fox jumps over");
}

fn check_template(text: &str, template: &str) {
    assert_eq!(text.chars().count(), template.chars().count(), "{:?}", text);
    for (c, t) in text.chars().zip(template.chars()) {
        match t {
            'n' => assert!(c.is_ascii_digit(), "{:?}", text),
            's' => assert!(c == '+' || c == '-', "{:?}", text),
            _ => assert_eq!(c, t, "{:?}", text),
        }
    }
}

#[test]
fn decor_stamp_has_the_fixed_shape() {
    let decor = Decor::new("[d]", true, None).unwrap();
    let out = &decor.decorate("hello")[0];
    let stamp: String = out.chars().take(30).collect();
    check_template(&stamp, "nnnn-nn-nnTnn:nn:nn.nnnsnn:nn ");
    assert_eq!(&out[30..], "[d] hello\n");
}

#[test]
fn writer_stamp_has_the_fixed_shape() {
    let out = stdecor::decor_async::decor_str("[p]", true, "x");
    let stamp: String = out.chars().take(27).collect();
    check_template(&stamp, "nnnn-nn-nn nn:nn:nn.nnnnnn ");
    assert_eq!(&out[27..], "[p] x\n");
}

#[test]
fn dated_decor_width_is_checked_with_the_stamp() {
    // 30 characters of stamp, "ab" and a space: 33 characters of lead
    assert_eq!(
        Decor::new("ab", true, Some(33)).unwrap_err(),
        DecorError::PrefixTooLong { prefix_len: 2, width: 33 }
    );
    let decor = Decor::new("ab", true, Some(36)).unwrap();
    let out = decor.decorate("wxyz");
    assert_eq!(out.len(), 2);
    for line in &out {
        assert!(line.chars().count() <= 37, "{:?}", line);
        assert!(line[30..].starts_with("ab "));
    }
}

use tokiocli::{common_chars, common_prefix, tokenize, Action, Cli, EscSeq};

fn toks(s: &str) -> Vec<String> {
    tokenize(&s.chars().collect())
}

fn strings(v: &[&str]) -> Vec<String> {
    v.iter().map(|s| s.to_string()).collect()
}

/// Feeds every byte of `input`, returning the last action and all output.
fn feed_all(cli: &mut Cli, input: &[u8]) -> (Option<Action>, String) {
    let mut out = String::new();
    let mut last = None;
    for &b in input {
        let (a, o) = cli.feed(b);
        out.push_str(&o);
        if a.is_some() {
            last = a;
        }
    }
    (last, out)
}

fn fresh() -> Cli {
    let mut cli = Cli::new();
    let out = cli.begin_action();
    assert_eq!(out, "> ");
    cli
}

#[test]
fn tokenize_escaped_space() {
    assert_eq!(toks("a\\ b"), strings(&["a b"]));
}

#[test]
fn tokenize_quoted() {
    assert_eq!(toks("\"a b\" c"), strings(&["a b", "c"]));
}

#[test]
fn tokenize_empty() {
    assert_eq!(toks(""), strings(&[""]));
}

#[test]
fn tokenize_double_space() {
    assert_eq!(toks("a  b"), strings(&["a", "", "b"]));
}

#[test]
fn tokenize_trailing_space() {
    assert_eq!(toks("ls "), strings(&["ls", ""]));
}

#[test]
fn tokenize_escaped_quote_and_backslash() {
    assert_eq!(toks("a\\\"b \\\\"), strings(&["a\"b", "\\"]));
}

#[test]
fn common_prefix_two_words() {
    assert_eq!(common_prefix(&strings(&["hello", "help"])), "hel");
    assert_eq!(common_prefix(&strings(&["hello", "hex", "help"])), "he");
}

#[test]
fn common_prefix_one_word() {
    assert_eq!(common_prefix(&strings(&["a"])), "a");
}

#[test]
fn common_prefix_none() {
    assert_eq!(common_prefix(&Vec::new()), "");
    assert_eq!(common_prefix(&strings(&["abc", "xyz"])), "");
}

#[test]
fn common_chars_stops_at_mismatch() {
    let l: Vec<char> = "help".chars().collect();
    let r: Vec<char> = "hello".chars().collect();
    assert_eq!(common_chars(&l, &r), vec!['h', 'e', 'l']);
    assert_eq!(common_chars(&l, &Vec::new()), Vec::<char>::new());
}

#[test]
fn escape_sequences_render() {
    assert_eq!(EscSeq::Left(12).to_string(), "\x1b[12D");
    assert_eq!(EscSeq::Right(1).to_string(), "\x1b[1C");
    assert_eq!(EscSeq::HorizontalAbs(0).to_string(), "\x1b[0G");
    assert_eq!(EscSeq::Up(305).to_string(), "\x1b[305A");
    assert_eq!(EscSeq::Down(9).to_string(), "\x1b[9B");
    assert_eq!(EscSeq::EraseInDisplay(2).to_string(), "\x1b[2J");
    assert_eq!(EscSeq::EraseInLineFromCursorToEnd.to_string(), "\x1b[0K");
    assert_eq!(EscSeq::EraseInLineFromCursorToBegining.to_string(), "\x1b[1K");
    assert_eq!(EscSeq::EraseInLineAll.to_string(), "\x1b[2K");
}

#[test]
fn typing_appends_and_echoes() {
    let mut cli = fresh();
    let (a, out) = feed_all(&mut cli, b"ls");
    assert!(a.is_none());
    assert_eq!(out, "ls");
    assert_eq!(cli.line(), "ls");
    assert_eq!(cli.cursor(), 2);
}

#[test]
fn insert_in_the_middle_redraws_suffix() {
    let mut cli = fresh();
    feed_all(&mut cli, b"ac\x1b[D");
    assert_eq!(cli.cursor(), 1);
    let (_, out) = feed_all(&mut cli, b"b");
    assert_eq!(out, "bc\x1b[1D");
    assert_eq!(cli.line(), "abc");
    assert_eq!(cli.cursor(), 2);
}

#[test]
fn backspace_in_the_middle() {
    let mut cli = fresh();
    feed_all(&mut cli, b"abc\x1b[D");
    let (_, out) = feed_all(&mut cli, &[0x7F]);
    assert_eq!(out, "\x08c \x1b[2D");
    assert_eq!(cli.line(), "ac");
    assert_eq!(cli.cursor(), 1);
}

#[test]
fn backspace_at_start_changes_nothing() {
    let mut cli = fresh();
    feed_all(&mut cli, b"ab\x01");
    assert_eq!(cli.cursor(), 0);
    let (_, out) = feed_all(&mut cli, &[0x7F]);
    assert_eq!(out, "");
    assert_eq!(cli.line(), "ab");
    assert_eq!(cli.cursor(), 0);
}

#[test]
fn delete_forward_at_end_changes_nothing() {
    let mut cli = fresh();
    feed_all(&mut cli, b"ab");
    let (_, out) = feed_all(&mut cli, b"\x1b[3~");
    assert_eq!(out, "");
    assert_eq!(cli.line(), "ab");
    assert_eq!(cli.cursor(), 2);
}

#[test]
fn delete_forward_under_cursor() {
    let mut cli = fresh();
    feed_all(&mut cli, b"abc\x01");
    let (_, out) = feed_all(&mut cli, b"\x1b[3~");
    assert_eq!(out, "bc \x1b[3D");
    assert_eq!(cli.line(), "bc");
    assert_eq!(cli.cursor(), 0);
}

#[test]
fn delete_forward_keeps_last_character() {
    let mut cli = fresh();
    feed_all(&mut cli, b"ab\x1b[D");
    assert_eq!(cli.cursor(), 1);
    let (_, out) = feed_all(&mut cli, b"\x1b[3~");
    assert_eq!(out, "");
    assert_eq!(cli.line(), "ab");
}

#[test]
fn home_keys_move_to_start() {
    let mut cli = fresh();
    feed_all(&mut cli, b"abc");
    let (_, out) = feed_all(&mut cli, &[0x02]);
    assert_eq!(out, "\x1b[3D");
    assert_eq!(cli.cursor(), 0);
    feed_all(&mut cli, b"\x1b[C");
    let (_, out) = feed_all(&mut cli, &[0x01]);
    assert_eq!(out, "\x1b[1D");
    assert_eq!(cli.cursor(), 0);
}

#[test]
fn arrows_stop_at_line_ends() {
    let mut cli = fresh();
    feed_all(&mut cli, b"a");
    let (_, out) = feed_all(&mut cli, b"\x1b[C");
    assert_eq!(out, "");
    assert_eq!(cli.cursor(), 1);
    let (_, out) = feed_all(&mut cli, b"\x1b[D\x1b[D");
    assert_eq!(out, "\x1b[1D");
    assert_eq!(cli.cursor(), 0);
}

#[test]
fn unknown_escape_is_reported_and_dropped() {
    let mut cli = fresh();
    let (a, out) = feed_all(&mut cli, b"\x1b[Z");
    assert!(a.is_none());
    assert_eq!(out, "Unhandled ANSI Escape Sequence: 90\n");
    assert_eq!(cli.line(), "");
}

#[test]
fn escape_without_bracket_is_dropped() {
    let mut cli = fresh();
    let (_, out) = feed_all(&mut cli, b"\x1bAx");
    assert_eq!(out, "x");
    assert_eq!(cli.line(), "x");
}

#[test]
fn bad_delete_sequence_is_reported() {
    let mut cli = fresh();
    feed_all(&mut cli, b"ab\x01");
    let (_, out) = feed_all(&mut cli, b"\x1b[3x");
    assert_eq!(out, "Unexpected character x\n");
    assert_eq!(cli.line(), "ab");
}

#[test]
fn enter_submits_tokens() {
    let mut cli = fresh();
    let (a, out) = feed_all(&mut cli, b"cmd  arg\n");
    assert_eq!(out, "cmd  arg\n");
    match a {
        Some(Action::Command(args)) => assert_eq!(args, strings(&["cmd", "", "arg"])),
        _ => panic!("expected a command"),
    }
    assert_eq!(cli.history(), strings(&["cmd  arg"]));
}

#[test]
fn empty_line_is_not_recorded() {
    let mut cli = fresh();
    let (a, _) = feed_all(&mut cli, b"\n");
    match a {
        Some(Action::Command(args)) => assert_eq!(args, strings(&[""])),
        _ => panic!("expected a command"),
    }
    assert!(cli.history().is_empty());
    cli.begin_action();
    feed_all(&mut cli, b" x\n");
    assert!(cli.history().is_empty());
}

#[test]
fn next_line_starts_fresh() {
    let mut cli = fresh();
    feed_all(&mut cli, b"ls\n");
    assert_eq!(cli.line(), "ls");
    let out = cli.begin_action();
    assert_eq!(out, "> ");
    assert_eq!(cli.line(), "");
    assert_eq!(cli.cursor(), 0);
    assert_eq!(cli.begin_action(), "");
}

#[test]
fn tab_asks_for_completion() {
    let mut cli = fresh();
    let (a, out) = feed_all(&mut cli, b"up a\t");
    assert_eq!(out, "up a");
    match a {
        Some(Action::AutoComplete(args)) => assert_eq!(args, strings(&["up", "a"])),
        _ => panic!("expected a completion request"),
    }
    assert_eq!(cli.line(), "up a");
}

#[test]
fn single_candidate_completes_in_place() {
    let mut cli = fresh();
    feed_all(&mut cli, b"he");
    let out = cli.autocomplete(&strings(&["hello"]));
    assert_eq!(out, "llo");
    assert_eq!(cli.line(), "hello");
    assert_eq!(cli.cursor(), 5);
}

#[test]
fn several_candidates_are_listed() {
    let mut cli = fresh();
    feed_all(&mut cli, b"h");
    let out = cli.autocomplete(&strings(&["hello", "help"]));
    assert_eq!(out, "\nhello help \n> hel");
    assert_eq!(cli.line(), "hel");
    assert_eq!(cli.cursor(), 3);
}

#[test]
fn no_candidates_change_nothing() {
    let mut cli = fresh();
    feed_all(&mut cli, b"zz");
    assert_eq!(cli.autocomplete(&Vec::new()), "");
    assert_eq!(cli.line(), "zz");
}

#[test]
fn history_recall_redraws_line() {
    let mut cli = fresh();
    feed_all(&mut cli, b"ls\n");
    cli.begin_action();
    let (_, out) = feed_all(&mut cli, b"\x1b[A");
    assert_eq!(out, "\x1b[2K\x1b[0G> ls");
    assert_eq!(cli.line(), "ls");
    assert_eq!(cli.cursor(), 2);
    assert_eq!(cli.history_position(), Some(0));
}

#[test]
fn history_round_trip() {
    let mut cli = fresh();
    feed_all(&mut cli, b"a\n");
    cli.begin_action();
    feed_all(&mut cli, b"b\n");
    cli.begin_action();
    feed_all(&mut cli, b"\x1b[A\x1b[A");
    assert_eq!(cli.history_position(), Some(0));
    assert_eq!(cli.line(), "a");
    feed_all(&mut cli, b"\x1b[A");
    assert_eq!(cli.history_position(), Some(0));
    feed_all(&mut cli, b"\x1b[B\x1b[B");
    assert_eq!(cli.history_position(), None);
    // stepping past the newest entry leaves it on the line
    assert_eq!(cli.line(), "b");
    let (_, out) = feed_all(&mut cli, b"\x1b[B");
    assert_eq!(out, "");
    assert_eq!(cli.history_position(), None);
}

#[test]
fn up_with_empty_history_does_nothing() {
    let mut cli = fresh();
    feed_all(&mut cli, b"x");
    let (_, out) = feed_all(&mut cli, b"\x1b[A");
    assert_eq!(out, "");
    assert_eq!(cli.history_position(), None);
    assert_eq!(cli.line(), "x");
}

#[test]
fn setprompt_changes_redraw() {
    let mut cli = Cli::new();
    cli.setprompt("$ ").setprompt("% ");
    assert_eq!(cli.begin_action(), "% ");
}

#[test]
fn decoder_states() {
    let mut cli = fresh();
    cli.feed(0x1b);
    cli.feed(b'[');
    cli.feed(b'3');
    let (_, out) = cli.feed(b'~');
    assert_eq!(out, "");
    let (_, out) = cli.feed(b'q');
    assert_eq!(out, "q");
}

#[test]
fn reset_always_starts_a_fresh_line() {
    let mut cli = fresh();
    feed_all(&mut cli, b"ls\n");
    cli.begin_action();
    feed_all(&mut cli, b"\x1b[Ax");
    assert_eq!(cli.line(), "lsx");
    assert_eq!(cli.history_position(), Some(0));
    let mut out = String::new();
    cli.reset(&mut out);
    assert_eq!(out, "> ");
    assert_eq!(cli.line(), "");
    assert_eq!(cli.cursor(), 0);
    assert_eq!(cli.history_position(), None);
    assert_eq!(cli.history(), strings(&["ls"]));
}

#[test]
fn begin_action_drops_unfinished_escape() {
    let mut cli = fresh();
    feed_all(&mut cli, b"a\x1b[");
    assert_eq!(cli.begin_action(), "");
    let (_, out) = feed_all(&mut cli, b"D");
    assert_eq!(out, "D");
    assert_eq!(cli.line(), "aD");
}

#[test]
fn high_bytes_are_one_character_each() {
    let mut cli = fresh();
    let (_, out) = feed_all(&mut cli, &[0xC3, 0xA9]);
    assert_eq!(out, "\u{C3}\u{A9}");
    assert_eq!(cli.line(), "\u{C3}\u{A9}");
    assert_eq!(cli.cursor(), 2);
}

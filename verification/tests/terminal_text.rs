use boltshell::escape::strip_control_chars;
use boltshell::terminal::{command_bytes, on_channel_read, ReadOutcome, TerminalState};
use boltshell::text::{contains_str, trim_str};

#[test]
fn strip_removes_color_codes() {
    assert_eq!(strip_control_chars("\x1b[31mred\x1b[0m text"), "red text");
}

#[test]
fn strip_removes_osc_title_ending_in_bel() {
    assert_eq!(strip_control_chars("\x1b]0;user@host: ~\x07prompt$ "), "prompt$ ");
}

#[test]
fn strip_removes_osc_ending_in_string_terminator() {
    assert_eq!(strip_control_chars("a\x1b]1337;Cwd=/tmp\x1b\\b"), "ab");
}

#[test]
fn strip_osc_without_end_drops_the_rest() {
    assert_eq!(strip_control_chars("x\x1b]0;never closed"), "x");
}

#[test]
fn strip_csi_without_letter_drops_the_rest() {
    assert_eq!(strip_control_chars("ok\x1b[12;34"), "ok");
}

#[test]
fn strip_other_escape_skips_one_char() {
    assert_eq!(strip_control_chars("a\x1b(Bb"), "aBb");
    assert_eq!(strip_control_chars("a\x1b=b"), "ab");
}

#[test]
fn strip_escape_at_end() {
    assert_eq!(strip_control_chars("end\x1b"), "end");
}

#[test]
fn strip_keeps_newline_return_tab_and_drops_other_controls() {
    assert_eq!(strip_control_chars("a\tb\r\nc\x07d\x00e\x7ff\u{85}g"), "a\tb\r\ncdefg");
}

#[test]
fn strip_keeps_non_ascii_text() {
    assert_eq!(strip_control_chars("你好，世界"), "你好，世界");
}

#[test]
fn strip_is_idempotent_on_examples() {
    for s in ["\x1b[1;32mgreen\x1b[0m\r\n", "a\x1b]0;t\x07b\x01c", "plain text"] {
        let once = strip_control_chars(s);
        assert_eq!(strip_control_chars(&once), once);
    }
}

#[test]
fn trim_removes_unicode_white_space() {
    assert_eq!(trim_str("\u{3000} \t abc def\r\n\u{a0}"), "abc def");
    assert_eq!(trim_str("   "), "");
    assert_eq!(trim_str(""), "");
}

#[test]
fn contains_finds_infix() {
    assert!(contains_str("连接成功！远程回显", "成功"));
    assert!(!contains_str("测试失败: x", "成功"));
    assert!(contains_str("abc", ""));
    assert!(!contains_str("ab", "abc"));
}

#[test]
fn data_lines_and_prompt() {
    let mut t = TerminalState::new();
    let lines = t.process_terminal_data("Welcome\r\nuser@host:~$\nlast login\n");
    assert_eq!(lines, vec!["Welcome".to_string(), "last login".to_string()]);
    assert_eq!(t.remote_prompt, "user@host:~$ ");
}

#[test]
fn data_line_with_space_is_not_a_prompt() {
    let mut t = TerminalState::new();
    let lines = t.process_terminal_data("costs 5 $\n  root$  ");
    assert_eq!(lines, vec!["costs 5 $".to_string()]);
    assert_eq!(t.remote_prompt, "root$ ");
}

#[test]
fn data_keeps_lone_carriage_return_at_end() {
    let mut t = TerminalState::new();
    let lines = t.process_terminal_data("a\r\n\nb\r");
    assert_eq!(lines, vec!["a".to_string(), "".to_string(), "b\r".to_string()]);
}

#[test]
fn output_is_cleaned_and_blank_lines_dropped() {
    let mut t = TerminalState::new();
    t.process_terminal_output(&vec![
        "\x1b[32mhello\x1b[0m\r\n\r\n   \nme@box:/$\r\n".to_string(),
        "second\n".to_string(),
    ]);
    assert_eq!(t.output, vec!["hello".to_string(), "second".to_string()]);
    assert_eq!(t.remote_prompt, "me@box:/$ ");
}

#[test]
fn output_buffer_drops_oldest_hundred_over_limit() {
    let mut t = TerminalState::new();
    for i in 0..500 {
        t.output.push(format!("line {}", i));
    }
    t.process_terminal_output(&vec!["new\n".to_string()]);
    assert_eq!(t.output.len(), 401);
    assert_eq!(t.output[0], "line 100");
    assert_eq!(t.output[400], "new");
}

#[test]
fn output_buffer_at_limit_is_kept() {
    let mut t = TerminalState::new();
    for i in 0..499 {
        t.output.push(format!("line {}", i));
    }
    t.process_terminal_output(&vec!["new".to_string()]);
    assert_eq!(t.output.len(), 500);
    assert_eq!(t.output[0], "line 0");
}

#[test]
fn send_blank_input_does_nothing() {
    let mut t = TerminalState::new();
    t.input = "   ".to_string();
    assert_eq!(t.send_terminal_command(true), None);
    assert_eq!(t.input, "   ");
    assert!(t.output.is_empty());
}

#[test]
fn send_command_when_connected() {
    let mut t = TerminalState::new();
    t.remote_prompt = "u@h:~$ ".to_string();
    t.input = "  ls -l ".to_string();
    assert_eq!(t.send_terminal_command(true), Some("ls -l".to_string()));
    assert_eq!(t.output, vec!["u@h:~$  ls -l".to_string()]);
    assert_eq!(t.input, "");
    assert_eq!(t.last_command, "ls -l");
}

#[test]
fn send_command_when_not_connected() {
    let mut t = TerminalState::new();
    t.input = "pwd".to_string();
    assert_eq!(t.send_terminal_command(false), None);
    assert_eq!(t.output, vec![" pwd".to_string(), "❌ 未连接到终端".to_string()]);
    assert_eq!(t.last_command, "pwd");
    assert_eq!(t.input, "");
}

#[test]
fn send_clear_empties_screen() {
    let mut t = TerminalState::new();
    t.output.push("old".to_string());
    t.last_command = "prev".to_string();
    t.input = "cls".to_string();
    assert_eq!(t.send_terminal_command(true), None);
    assert!(t.output.is_empty());
    assert_eq!(t.input, "");
    assert_eq!(t.last_command, "prev");
}

#[test]
fn send_failure_notice() {
    let mut t = TerminalState::new();
    t.record_send_failure();
    assert_eq!(t.output, vec!["❌ 发送命令失败，连接可能已断开".to_string()]);
}

#[test]
fn visible_lines_hide_the_echo() {
    let mut t = TerminalState::new();
    t.output = vec!["ls".to_string(), "a.txt".to_string(), "ls".to_string()];
    t.last_command = " ls ".to_string();
    assert_eq!(t.visible_lines(), vec!["a.txt".to_string()]);
}

#[test]
fn clear_and_reset() {
    let mut t = TerminalState::new();
    t.output.push("x".to_string());
    t.first_banner_arrived = true;
    t.reset_for_connection();
    assert!(t.output.is_empty());
    assert!(!t.first_banner_arrived);
    t.output.push("y".to_string());
    t.clear_screen();
    assert!(t.output.is_empty());
}

#[test]
fn read_of_nothing_means_closed() {
    let step = on_channel_read(ReadOutcome::Bytes(Vec::new()));
    assert!(step.stop);
    assert_eq!(step.forward, Some("\r\n连接已关闭".to_string()));
}

#[test]
fn read_bytes_are_decoded() {
    let step = on_channel_read(ReadOutcome::Bytes("你好 ok".as_bytes().to_vec()));
    assert!(!step.stop);
    assert_eq!(step.forward, Some("你好 ok".to_string()));
}

#[test]
fn read_invalid_utf8_is_replaced() {
    let step = on_channel_read(ReadOutcome::Bytes(vec![b'a', 0xff, b'b']));
    assert_eq!(step.forward, Some("a\u{fffd}b".to_string()));
}

#[test]
fn read_would_block_and_failure() {
    let w = on_channel_read(ReadOutcome::WouldBlock);
    assert!(!w.stop);
    assert_eq!(w.forward, None);
    let f = on_channel_read(ReadOutcome::Failed);
    assert!(f.stop);
    assert_eq!(f.forward, None);
}

#[test]
fn exit_command_stops_and_others_are_written() {
    assert_eq!(command_bytes(&"exit".to_string()), None);
    assert_eq!(
        command_bytes(&"ls".to_string()),
        Some((b"ls".to_vec(), b"\r\n".to_vec()))
    );
    assert_eq!(
        command_bytes(&"exit ".to_string()),
        Some((b"exit ".to_vec(), b"\r\n".to_vec()))
    );
}

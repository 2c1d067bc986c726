use shell_pane::keys::{InputEvent, Key};
use shell_pane::pane::Pane;
use shell_pane::screen::Screen;
use shell_pane::session::{
    after_spawn_failure, all_failed_message, fallback_message, fallback_shell,
    missing_stream_message, read_error_message, shell_path, spawn_failed_message,
    started_message, Stream,
};

#[test]
fn invalid_shell_path_gives_a_diagnostic_with_the_path() {
    let path = "/no/such/shell";
    let msg = spawn_failed_message("No such file or directory (os error 2)", path);
    assert!(msg.contains(path));
    let mut s = Screen::new();
    s.feed(&msg);
    assert_eq!(s.line(1), format!("{}パス: /no/such/shell", " ".repeat(53)));
    assert_eq!(s.cursor(), (71, 2));
}

#[test]
fn spawn_failure_offers_the_posix_fallback_for_any_shell() {
    let (msg, next) = after_spawn_failure("/bin/bash", "boom");
    assert_eq!(msg, "シェルの起動に失敗しました: boom\nパス: /bin/bash\n");
    assert_eq!(next, "/bin/sh");
    let (msg, next) = after_spawn_failure("/usr/bin/zsh", "boom");
    assert_eq!(msg, "シェルの起動に失敗しました: boom\nパス: /usr/bin/zsh\n");
    assert_eq!(next, "/bin/sh");
    assert_eq!(fallback_shell(), "/bin/sh");
}

#[test]
fn shell_path_defaults() {
    assert_eq!(shell_path(Some("/bin/zsh".to_string()), false), "/bin/zsh");
    assert_eq!(shell_path(None, false), "/bin/bash");
    assert_eq!(shell_path(None, true), "cmd.exe");
}

#[test]
fn diagnostic_lines() {
    assert_eq!(started_message("/bin/bash"), "ターミナルを起動しました: /bin/bash\n");
    assert_eq!(fallback_message(), "フォールバック: /bin/shを使用します\n");
    assert_eq!(all_failed_message("e"), "すべてのシェルが失敗しました: e\n");
    assert_eq!(missing_stream_message(Stream::Stdin), "子プロセスのstdinを取得できません\n");
    assert_eq!(read_error_message(Stream::Stderr, "x"), "stderr読み取りエラー: x\n");
}

#[test]
fn input_is_sent_only_with_focus() {
    let mut p = Pane::new();
    let events = vec![InputEvent::Key { key: Key::Enter, ctrl: false }];
    assert_eq!(p.take_input(true, &events), None);
    p.click();
    assert!(p.is_focused());
    assert_eq!(p.take_input(false, &events), None);
    assert_eq!(p.take_input(true, &events), Some(vec![0x0d]));
    assert_eq!(p.take_input(true, &vec![InputEvent::Key { key: Key::Other, ctrl: false }]), None);
}

#[test]
fn frame_resizes_then_feeds_chunks_in_order() {
    let mut p = Pane::new();
    p.frame(10, 2, &vec!["hel".to_string(), "lo\r\nx".to_string()]);
    assert_eq!(p.screen().size(), (10, 2));
    assert_eq!(p.screen().line_count(), 24);
    assert_eq!(p.screen().line(0), "hello");
    assert_eq!(p.screen().line(1), "x");
    assert_eq!(p.screen().cursor(), (1, 1));
}

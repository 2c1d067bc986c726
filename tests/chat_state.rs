use shell_pane::chat::{
    choose_backend, completion_reply, is_blank, mock_reply, Backend, ChatMessage, ChatPanel,
};

#[test]
fn message_constructors() {
    let u = ChatMessage::user("hi".to_string());
    assert_eq!(u.role, "user");
    assert_eq!(u.content, "hi");
    assert!(u.is_user());
    assert!(!u.is_assistant());
    let a = ChatMessage::assistant("ok".to_string());
    assert_eq!(a.role, "assistant");
    assert!(a.is_assistant());
    let s = ChatMessage::system("note".to_string());
    assert_eq!(s.role, "system");
    assert!(!s.is_user() && !s.is_assistant());
}

#[test]
fn mock_reply_answers_the_last_user_message() {
    let msgs = vec![
        ChatMessage::user("first".to_string()),
        ChatMessage::user("second".to_string()),
        ChatMessage::assistant("x".to_string()),
    ];
    let r = mock_reply(&msgs).unwrap();
    assert!(r.starts_with("あなたのメッセージ「second」を受け取りました。"));
}

#[test]
fn mock_reply_without_user_message_fails() {
    let msgs = vec![ChatMessage::system("s".to_string())];
    assert_eq!(mock_reply(&msgs), Err("ユーザーメッセージがありません".to_string()));
}

#[test]
fn completion_reply_cases() {
    let choices = vec![ChatMessage::assistant("answer".to_string())];
    assert_eq!(completion_reply(true, "200 OK", &choices), Ok("answer".to_string()));
    assert_eq!(
        completion_reply(false, "401 Unauthorized", &choices),
        Err("API エラー: ステータスコード 401 Unauthorized".to_string())
    );
    assert_eq!(
        completion_reply(true, "200 OK", &Vec::new()),
        Err("APIからの応答に選択肢がありません".to_string())
    );
}

#[test]
fn backend_choice() {
    match choose_backend(Some("SECRET-REDACTED".to_string())) {
        Backend::Remote(s) => {
            assert_eq!(s.api_key, "SECRET-REDACTED");
            assert_eq!(s.model, "gpt-3.5-turbo");
        }
        Backend::Mock => panic!("expected the remote backend"),
    }
    assert!(matches!(choose_backend(Some(String::new())), Backend::Mock));
    assert!(matches!(choose_backend(None), Backend::Mock));
}

#[test]
fn blank_text() {
    assert!(is_blank(""));
    assert!(is_blank(" \t\n\u{3000}"));
    assert!(!is_blank(" a "));
}

#[test]
fn panel_send_and_receive() {
    let mut p = ChatPanel::new();
    p.set_input("   ".to_string());
    assert!(p.send_message().is_none());
    p.set_input("hello".to_string());
    let sent = p.send_message().unwrap();
    assert_eq!(sent.len(), 1);
    assert_eq!(sent[0].content, "hello");
    assert!(p.is_awaiting());
    assert_eq!(p.input(), "");
    p.set_input("again".to_string());
    assert!(p.send_message().is_none());
    p.receive_reply(Err("down".to_string()));
    assert!(!p.is_awaiting());
    let h = p.history();
    assert_eq!(h.len(), 2);
    assert_eq!(h[1].role, "system");
    assert_eq!(h[1].content, "エラー: down");
    p.receive_reply(Ok("late".to_string()));
    assert_eq!(p.history().len(), 2);
    let sent = p.send_message().unwrap();
    assert_eq!(sent.len(), 3);
    p.receive_reply(Ok("hi".to_string()));
    let h = p.history();
    assert_eq!(h[3].role, "assistant");
    assert_eq!(h[3].content, "hi");
}

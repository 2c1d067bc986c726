use shell_pane::markup::{split_lines, styled_lines, LineStyle};

fn texts(content: &str) -> Vec<String> {
    split_lines(content).into_iter().map(|l| l.into_iter().collect()).collect()
}

#[test]
fn lines_split_like_str_lines() {
    assert_eq!(texts("a\nb\r\nc"), vec!["a", "b", "c"]);
    assert_eq!(texts("a\n"), vec!["a"]);
    assert_eq!(texts("a\n\nb"), vec!["a", "", "b"]);
    assert_eq!(texts(""), Vec::<String>::new());
    assert_eq!(texts("\n"), vec![""]);
}

#[test]
fn fences_toggle_code_blocks() {
    let lines = styled_lines("intro\n  ```rust\nlet x = 1;\n```\nafter");
    let styles: Vec<LineStyle> = lines.iter().map(|l| l.style).collect();
    assert_eq!(
        styles,
        vec![LineStyle::Plain, LineStyle::Fence, LineStyle::Code, LineStyle::Fence, LineStyle::Plain]
    );
    assert_eq!(lines[1].text, "  ```rust");
    assert_eq!(lines[2].text, "let x = 1;");
}

#[test]
fn two_backticks_are_not_a_fence() {
    let lines = styled_lines("``\n`` `");
    assert!(lines.iter().all(|l| l.style == LineStyle::Plain));
}

use vstd::prelude::*;
use crate::screen::{
    is_control_char, lemma_feed_concat, pad_to, lemma_printable_run, lemma_step_wf, ScreenModel,
};

verus! {

/// A standard stream of the child shell.
#[derive(Clone, Copy, Debug, PartialEq, Eq, Structural)]
pub enum Stream {
    Stdin,
    Stdout,
    Stderr,
}

/// The default POSIX shell, tried once when the configured shell fails to
/// start, whatever that shell was.
pub open spec fn fallback_path() -> Seq<char> {
    "/bin/sh"@
}

/// The line shown once the shell has started.
pub open spec fn started_text(shell: Seq<char>) -> Seq<char> {
    "ターミナルを起動しました: "@ + shell + "\n"@
}

/// The lines shown when the shell could not start.
pub open spec fn spawn_failed_text(error: Seq<char>, shell: Seq<char>) -> Seq<char> {
    "シェルの起動に失敗しました: "@ + error + "\nパス: "@ + shell + "\n"@
}

/// The line shown when the fallback shell could not start either.
pub open spec fn all_failed_text(error: Seq<char>) -> Seq<char> {
    "すべてのシェルが失敗しました: "@ + error + "\n"@
}

/// The name a stream goes by in diagnostics.
pub open spec fn stream_name(stream: Stream) -> Seq<char> {
    match stream {
        Stream::Stdin => "stdin"@,
        Stream::Stdout => "stdout"@,
        Stream::Stderr => "stderr"@,
    }
}

/// The line shown when a stream of the child is not available.
pub open spec fn missing_stream_text(stream: Stream) -> Seq<char> {
    "子プロセスの"@ + stream_name(stream) + "を取得できません\n"@
}

/// The line shown when reading a stream of the child failed.
pub open spec fn read_error_text(stream: Stream, error: Seq<char>) -> Seq<char> {
    stream_name(stream) + "読み取りエラー: "@ + error + "\n"@
}

/// The shell to start: the configured one when there is one, else the
/// platform's default.
pub fn shell_path(configured: Option<String>, windows: bool) -> (r: String)
    ensures
        configured is Some ==> r@ == configured->0@,
        configured is None && windows ==> r@ == "cmd.exe"@,
        configured is None && !windows ==> r@ == "/bin/bash"@,
{
    match configured {
        Some(s) => s,
        None => if windows {
            String::from_str("cmd.exe")
        } else {
            String::from_str("/bin/bash")
        },
    }
}

/// The one fallback shell to try after the configured shell failed to start.
pub fn fallback_shell() -> (r: String)
    ensures
        r@ == fallback_path(),
{
    String::from_str("/bin/sh")
}

/// The line shown once `shell` has started.
pub fn started_message(shell: &str) -> (r: String)
    ensures
        r@ == started_text(shell@),
{
    String::from_str("ターミナルを起動しました: ").concat(shell).concat("\n")
}

/// The lines shown when `shell` could not start, with the system's `error`.
pub fn spawn_failed_message(error: &str, shell: &str) -> (r: String)
    ensures
        r@ == spawn_failed_text(error@, shell@),
{
    String::from_str("シェルの起動に失敗しました: ").concat(error).concat("\nパス: ").concat(
        shell,
    ).concat("\n")
}

/// The line shown when the fallback shell is taken.
pub fn fallback_message() -> (r: String)
    ensures
        r@ == "フォールバック: /bin/shを使用します\n"@,
{
    String::from_str("フォールバック: /bin/shを使用します\n")
}

/// The line shown when the fallback shell could not start either.
pub fn all_failed_message(error: &str) -> (r: String)
    ensures
        r@ == all_failed_text(error@),
{
    String::from_str("すべてのシェルが失敗しました: ").concat(error).concat("\n")
}

fn stream_label(stream: Stream) -> (r: String)
    ensures
        r@ == stream_name(stream),
{
    match stream {
        Stream::Stdin => String::from_str("stdin"),
        Stream::Stdout => String::from_str("stdout"),
        Stream::Stderr => String::from_str("stderr"),
    }
}

/// The line shown when a stream of the child is not available.
pub fn missing_stream_message(stream: Stream) -> (r: String)
    ensures
        r@ == missing_stream_text(stream),
{
    String::from_str("子プロセスの").concat(stream_label(stream).as_str()).concat(
        "を取得できません\n",
    )
}

/// The line shown when reading a stream of the child failed.
pub fn read_error_message(stream: Stream, error: &str) -> (r: String)
    ensures
        r@ == read_error_text(stream, error@),
{
    stream_label(stream).concat("読み取りエラー: ").concat(error).concat("\n")
}

/// What follows a failed start of the configured shell: the diagnostic to
/// show and the one fallback shell to try, for any configured shell.
pub fn after_spawn_failure(shell: &str, error: &str) -> (r: (String, String))
    ensures
        r.0@ == spawn_failed_text(error@, shell@),
        r.1@ == fallback_path(),
{
    (spawn_failed_message(error, shell), fallback_shell())
}

/// The diagnostic for a shell that failed to start holds the path that was
/// tried, whole and in order.
pub proof fn lemma_spawn_failure_names_path(error: Seq<char>, shell: Seq<char>)
    ensures
        exists|i: int|
            0 <= i && i + shell.len() <= spawn_failed_text(error, shell).len()
                && (#[trigger] spawn_failed_text(error, shell).subrange(i, i + shell.len())) == shell,
{
    let head = "シェルの起動に失敗しました: "@ + error + "\nパス: "@;
    let t = spawn_failed_text(error, shell);
    let i = head.len() as int;
    assert(t =~= head + shell + "\n"@);
    assert(t.subrange(i, i + shell.len()) =~= shell);
}

/// Text without control characters.
pub open spec fn is_plain_text(t: Seq<char>) -> bool {
    forall|i: int| 0 <= i < t.len() ==> !is_control_char(#[trigger] t[i])
}

/// The start-failure diagnostic, fed to the screen, leaves a line that holds
/// the shell path that was tried, whole. This holds when the error text and
/// the path have no control characters and each of the diagnostic's two
/// lines fits in the grid's width from the cursor column.
pub proof fn lemma_spawn_failure_shows_path(s: ScreenModel, error: Seq<char>, shell: Seq<char>)
    requires
        s.wf(),
        is_plain_text(error),
        is_plain_text(shell),
        s.col + ("シェルの起動に失敗しました: "@ + error).len() + ("パス: "@ + shell).len() < s.cols,
    ensures
        ({
            let t = s.feed(spawn_failed_text(error, shell));
            exists|r: int, i: int|
                0 <= r < t.lines.len() && 0 <= i && i + shell.len() <= t.lines[r].len()
                    && (#[trigger] t.lines[r].subrange(i, i + shell.len())) == shell
        }),
{
    reveal_strlit("シェルの起動に失敗しました: ");
    reveal_strlit("\nパス: ");
    reveal_strlit("パス: ");
    reveal_strlit("\n");
    let h = "シェルの起動に失敗しました: "@;
    let lf = seq!['\n'];
    let a = h + error;
    let b = "パス: "@ + shell;
    assert(spawn_failed_text(error, shell) =~= a + lf + b + lf);
    assert forall|i: int| 0 <= i < a.len() implies !is_control_char(#[trigger] a[i]) by {
        if i < h.len() {
            assert(a[i] == h[i]);
        } else {
            assert(a[i] == error[i - h.len()]);
        }
    }
    assert forall|i: int| 0 <= i < b.len() implies !is_control_char(#[trigger] b[i]) by {
        if i >= 4 {
            assert(b[i] == shell[i - 4]);
        }
    }
    assert(lf.drop_last() =~= Seq::<char>::empty());

    lemma_printable_run(s, a);
    let s1 = s.feed(a);
    lemma_feed_concat(s, a, lf);
    assert(s1.feed(lf.drop_last()) == s1);
    assert(lf.last() == '\n');
    assert(s1.feed(lf) == s1.step('\n'));
    lemma_step_wf(s1, '\n');
    let s2 = s1.step('\n');
    let c = s2.col as int;
    lemma_feed_concat(s, a + lf, b);
    lemma_printable_run(s2, b);
    let s3 = s2.feed(b);
    let p = pad_to(s2.lines[s2.row as int], s2.col);
    let line = p.take(c) + b + p.skip(c);
    assert(s3.lines[s3.row as int] == line);
    assert(line.subrange(c + 4, c + 4 + shell.len()) =~= shell);
    lemma_feed_concat(s, a + lf + b, lf);
    assert(s3.feed(lf.drop_last()) == s3);
    assert(lf.last() == '\n');
    assert(s3.feed(lf) == s3.step('\n'));
    let t = s3.step('\n');
    assert(t == s.feed(spawn_failed_text(error, shell)));
    let i = c + 4;
    if s3.row + 1 < s3.lines.len() {
        assert(t.lines[s3.row as int].subrange(i, i + shell.len()) == shell);
    } else {
        let grown = s3.lines.push(Seq::empty());
        if grown.len() > 3 * s3.rows {
            let excess = grown.len() - 2 * s3.rows;
            let r = s3.row - excess;
            assert(t.lines[r] == grown[s3.row as int]);
            assert(t.lines[r].subrange(i, i + shell.len()) == shell);
        } else {
            assert(t.lines[s3.row as int].subrange(i, i + shell.len()) == shell);
        }
    }
}

} // verus!

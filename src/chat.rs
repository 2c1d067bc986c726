use vstd::prelude::*;

verus! {

/// Who speaks in a conversation.
#[derive(Clone, Copy, Debug, PartialEq, Eq, Structural)]
pub enum ChatRole {
    User,
    Assistant,
    System,
}

/// One message of a conversation: a role name and its text.
#[derive(Debug, Default)]
pub struct ChatMessage {
    pub role: String,
    pub content: String,
}

/// A message as plain text: (role, content).
pub open spec fn message_text(m: ChatMessage) -> (Seq<char>, Seq<char>) {
    (m.role@, m.content@)
}

/// A conversation as plain text.
pub open spec fn conversation(s: Seq<ChatMessage>) -> Seq<(Seq<char>, Seq<char>)> {
    s.map_values(|m: ChatMessage| message_text(m))
}

/// The index of the last message of `s` whose role is `user`, if any.
pub open spec fn last_user(s: Seq<(Seq<char>, Seq<char>)>) -> Option<int>
    decreases s.len(),
{
    if s.len() == 0 {
        None
    } else if s.last().0 == "user"@ {
        Some(s.len() - 1)
    } else {
        last_user(s.drop_last())
    }
}

/// The canned reply to a user message.
pub open spec fn mock_reply_text(content: Seq<char>) -> Seq<char> {
    "あなたのメッセージ「"@ + content
        + "」を受け取りました。\n\nこれはモック応答です。実際のAPI接続を設定するには、環境変数 OPENAI_API_KEY を設定してください。"@
}

/// What the offline backend answers: the canned reply to the last user
/// message, or an error when there is none.
pub open spec fn mock_result(s: Seq<(Seq<char>, Seq<char>)>) -> Result<Seq<char>, Seq<char>> {
    match last_user(s) {
        Some(i) => Ok(mock_reply_text(s[i].1)),
        None => Err("ユーザーメッセージがありません"@),
    }
}

/// Whether `c` is white space in Unicode's sense.
pub open spec fn is_space_char(c: char) -> bool {
    let u = c as u32;
    (9 <= u && u <= 13) || u == 32 || u == 0x85 || u == 0xa0 || u == 0x1680 || (0x2000 <= u && u
        <= 0x200a) || u == 0x2028 || u == 0x2029 || u == 0x202f || u == 0x205f || u == 0x3000
}

/// Whether a text holds nothing but white space.
pub open spec fn is_blank_text(s: Seq<char>) -> bool {
    forall|i: int| 0 <= i < s.len() ==> is_space_char(#[trigger] s[i])
}

impl ChatMessage {
    /// A message from the user.
    pub fn user(content: String) -> (r: ChatMessage)
        ensures
            r.role@ == "user"@,
            r.content@ == content@,
    {
        ChatMessage { role: String::from_str("user"), content }
    }

    /// A message from the assistant.
    pub fn assistant(content: String) -> (r: ChatMessage)
        ensures
            r.role@ == "assistant"@,
            r.content@ == content@,
    {
        ChatMessage { role: String::from_str("assistant"), content }
    }

    /// A message from the system.
    pub fn system(content: String) -> (r: ChatMessage)
        ensures
            r.role@ == "system"@,
            r.content@ == content@,
    {
        ChatMessage { role: String::from_str("system"), content }
    }

    pub fn is_user(&self) -> (r: bool)
        ensures
            r == (self.role@ == "user"@),
    {
        self.role == String::from_str("user")
    }

    pub fn is_assistant(&self) -> (r: bool)
        ensures
            r == (self.role@ == "assistant"@),
    {
        self.role == String::from_str("assistant")
    }

    /// A copy of the message.
    pub fn duplicate(&self) -> (r: ChatMessage)
        ensures
            message_text(r) == message_text(*self),
    {
        ChatMessage { role: self.role.clone(), content: self.content.clone() }
    }
}

/// A copy of a conversation.
pub fn copy_messages(v: &Vec<ChatMessage>) -> (r: Vec<ChatMessage>)
    ensures
        conversation(r@) == conversation(v@),
{
    let mut r: Vec<ChatMessage> = Vec::new();
    let mut i: usize = 0;
    while i < v.len()
        invariant
            i <= v@.len(),
            r@.len() == i,
            forall|j: int| 0 <= j < i ==> message_text(#[trigger] r@[j]) == message_text(v@[j]),
        decreases v@.len() - i,
    {
        let m = v[i].duplicate();
        r.push(m);
        i = i + 1;
    }
    proof {
        assert(conversation(r@) =~= conversation(v@));
    }
    r
}

/// The remote completion service's settings.
pub struct OpenAIService {
    pub api_key: String,
    pub model: String,
}

impl OpenAIService {
    pub fn new(api_key: String, model: String) -> (r: OpenAIService)
        ensures
            r.api_key@ == api_key@,
            r.model@ == model@,
    {
        OpenAIService { api_key, model }
    }
}

/// The model asked for when a key is configured.
pub open spec fn default_model() -> Seq<char> {
    "gpt-3.5-turbo"@
}

/// Which backend answers the chat.
pub enum Backend {
    Remote(OpenAIService),
    Mock,
}

/// The remote service when a non-empty key is given, else the offline one.
pub fn choose_backend(api_key: Option<String>) -> (r: Backend)
    ensures
        (api_key is Some && api_key->0@.len() > 0) ==> (r matches Backend::Remote(s) && s.api_key@
            == api_key->0@ && s.model@ == default_model()),
        !(api_key is Some && api_key->0@.len() > 0) ==> (r matches Backend::Mock),
{
    match api_key {
        Some(key) => if key.as_str().is_empty() {
            Backend::Mock
        } else {
            Backend::Remote(OpenAIService::new(key, String::from_str("gpt-3.5-turbo")))
        },
        None => Backend::Mock,
    }
}

/// What the offline backend answers to a conversation.
pub fn mock_reply(messages: &Vec<ChatMessage>) -> (r: Result<String, String>)
    ensures
        r is Ok <==> mock_result(conversation(messages@)) is Ok,
        r is Ok ==> r->Ok_0@ == mock_result(conversation(messages@))->Ok_0,
        r is Err ==> r->Err_0@ == mock_result(conversation(messages@))->Err_0,
{
    let ghost c = conversation(messages@);
    let mut i: usize = messages.len();
    proof {
        assert(c.take(i as int) =~= c);
    }
    while i > 0
        invariant
            i <= messages@.len(),
            c == conversation(messages@),
            last_user(c) == last_user(c.take(i as int)),
        decreases i,
    {
        proof {
            assert(c.take(i as int).drop_last() =~= c.take(i - 1));
        }
        if messages[i - 1].is_user() {
            let reply = String::from_str("あなたのメッセージ「").concat(
                messages[i - 1].content.as_str(),
            ).concat(
                "」を受け取りました。\n\nこれはモック応答です。実際のAPI接続を設定するには、環境変数 OPENAI_API_KEY を設定してください。",
            );
            return Ok(reply);
        }
        i = i - 1;
    }
    proof {
        assert(c.take(0) =~= Seq::<(Seq<char>, Seq<char>)>::empty());
    }
    Err(String::from_str("ユーザーメッセージがありません"))
}

/// The text of the error shown for an unsuccessful status.
pub open spec fn status_error_text(status: Seq<char>) -> Seq<char> {
    "API エラー: ステータスコード "@ + status
}

/// What a completion response yields: the first choice's text on success,
/// else an error naming the failure.
pub fn completion_reply(status_ok: bool, status: &str, choices: &Vec<ChatMessage>) -> (r: Result<
    String,
    String,
>)
    ensures
        !status_ok ==> r is Err && r->Err_0@ == status_error_text(status@),
        status_ok && choices@.len() == 0 ==> r is Err && r->Err_0@
            == "APIからの応答に選択肢がありません"@,
        status_ok && choices@.len() > 0 ==> r is Ok && r->Ok_0@ == choices@[0].content@,
{
    if !status_ok {
        Err(String::from_str("API エラー: ステータスコード ").concat(status))
    } else if choices.len() == 0 {
        Err(String::from_str("APIからの応答に選択肢がありません"))
    } else {
        Ok(choices[0].content.clone())
    }
}

/// Whether `c` is white space in Unicode's sense.
pub fn is_space(c: char) -> (r: bool)
    ensures
        r == is_space_char(c),
{
    let u = c as u32;
    (9 <= u && u <= 13) || u == 32 || u == 0x85 || u == 0xa0 || u == 0x1680 || (0x2000 <= u && u
        <= 0x200a) || u == 0x2028 || u == 0x2029 || u == 0x202f || u == 0x205f || u == 0x3000
}

/// Whether a text holds nothing but white space.
pub fn is_blank(s: &str) -> (r: bool)
    ensures
        r == is_blank_text(s@),
{
    let mut all = true;
    for c in it: s.chars()
        invariant
            it.seq() == s@,
            all == (forall|j: int| 0 <= j < it.index() ==> is_space_char(#[trigger] s@[j])),
    {
        proof {
            assert(it.seq()[it.index() as int] == c);
        }
        all = all && is_space(c);
    }
    all
}

/// The state of the chat panel: the conversation, the text being typed,
/// and whether a reply is awaited.
pub struct ChatPanel {
    history: Vec<ChatMessage>,
    input_buffer: String,
    awaiting_response: bool,
}

pub struct ChatPanelModel {
    pub history: Seq<(Seq<char>, Seq<char>)>,
    pub input: Seq<char>,
    pub awaiting: bool,
}

impl View for ChatPanel {
    type V = ChatPanelModel;

    closed spec fn view(&self) -> ChatPanelModel {
        ChatPanelModel {
            history: conversation(self.history@),
            input: self.input_buffer@,
            awaiting: self.awaiting_response,
        }
    }
}

impl ChatPanel {
    pub fn new() -> (r: ChatPanel)
        ensures
            r@.history == Seq::<(Seq<char>, Seq<char>)>::empty(),
            r@.input == Seq::<char>::empty(),
            !r@.awaiting,
    {
        let r = ChatPanel { history: Vec::new(), input_buffer: String::new(), awaiting_response: false };
        proof {
            assert(r@.history =~= Seq::<(Seq<char>, Seq<char>)>::empty());
        }
        r
    }

    /// The conversation so far.
    pub fn history(&self) -> (r: Vec<ChatMessage>)
        ensures
            conversation(r@) == self@.history,
    {
        copy_messages(&self.history)
    }

    /// The text being typed.
    pub fn input(&self) -> (r: String)
        ensures
            r@ == self@.input,
    {
        self.input_buffer.clone()
    }

    /// Replaces the text being typed.
    pub fn set_input(&mut self, text: String)
        ensures
            final(self)@ == (ChatPanelModel { input: text@, ..old(self)@ }),
    {
        self.input_buffer = text;
    }

    pub fn is_awaiting(&self) -> (r: bool)
        ensures
            r == self@.awaiting,
    {
        self.awaiting_response
    }

    /// Sends the typed text: unless it is blank or a reply is still awaited,
    /// it joins the conversation as a user message, the input is cleared, a
    /// reply becomes awaited, and the whole conversation is returned for the
    /// backend. Otherwise nothing changes and nothing is returned.
    pub fn send_message(&mut self) -> (r: Option<Vec<ChatMessage>>)
        ensures
            (is_blank_text(old(self)@.input) || old(self)@.awaiting) ==> r is None && final(self)@
                == old(self)@,
            !(is_blank_text(old(self)@.input) || old(self)@.awaiting) ==> ({
                &&& final(self)@.history == old(self)@.history.push(("user"@, old(self)@.input))
                &&& final(self)@.input == Seq::<char>::empty()
                &&& final(self)@.awaiting
                &&& r is Some
                &&& conversation(r->0@) == final(self)@.history
            }),
    {
        if is_blank(self.input_buffer.as_str()) || self.awaiting_response {
            return None;
        }
        let mut text = String::new();
        std::mem::swap(&mut text, &mut self.input_buffer);
        let ghost before = self.history@;
        self.history.push(ChatMessage::user(text));
        proof {
            assert(conversation(self.history@) =~= conversation(before).push(("user"@, text@)));
        }
        self.awaiting_response = true;
        Some(copy_messages(&self.history))
    }

    /// Takes the backend's answer to the awaited reply: a reply joins the
    /// conversation as an assistant message, a failure as a system message
    /// that names it, and no reply is awaited any more. When no reply is
    /// awaited nothing changes.
    pub fn receive_reply(&mut self, reply: Result<String, String>)
        ensures
            !old(self)@.awaiting ==> final(self)@ == old(self)@,
            old(self)@.awaiting ==> ({
                &&& !final(self)@.awaiting
                &&& final(self)@.input == old(self)@.input
                &&& final(self)@.history == old(self)@.history.push(
                    match reply {
                        Ok(t) => ("assistant"@, t@),
                        Err(e) => ("system"@, "エラー: "@ + e@),
                    },
                )
            }),
    {
        if !self.awaiting_response {
            return;
        }
        let ghost before = self.history@;
        let m = match reply {
            Ok(t) => ChatMessage::assistant(t),
            Err(e) => ChatMessage::system(String::from_str("エラー: ").concat(e.as_str())),
        };
        self.history.push(m);
        proof {
            assert(conversation(self.history@) =~= conversation(before).push(message_text(m)));
        }
        self.awaiting_response = false;
    }
}

} // verus!

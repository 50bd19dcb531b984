//! Chats on the command line: what a typed line means, the conversation so far,
//! and the answer as it streams in.
use crate::api::stream;
use crate::api::types;
use crate::api::types::{ChatCompletionResponse, ChatMessage, MessageView, Usage};
use crate::cli::style;
use crate::number;
use crate::text;
use vstd::prelude::*;
use vstd::slice::slice_subrange;
use vstd::string::StringExecFns;

verus! {

broadcast use vstd::string::group_string_axioms;

/// What the model is told before every chat.
pub const SYSTEM_PROMPT: &'static str = "You are a helpful, knowledgeable AI assistant. Answer clearly and concisely. Use Markdown for structure (headings, bullet points, **bold**, and `code`) when it improves readability. Write code inside fenced ``` blocks with a language tag. For mathematics, use LaTeX: inline math in \\( ... \\) and display math in \\[ ... \\]. Be direct and get to the point.";

/// How many tokens an answer may have.
pub const CHAT_MAX_TOKENS: u32 = 2048;

/// A message of the given role.
pub open spec fn turn(role: Seq<char>, content: Seq<char>) -> MessageView {
    MessageView { role, content }
}

/// The message that begins every conversation.
pub open spec fn system_turn() -> MessageView {
    turn("system"@, SYSTEM_PROMPT@)
}

fn message(role: &str, content: &str) -> (r: ChatMessage)
    ensures
        r@ == turn(role@, content@),
{
    ChatMessage { role: String::from_str(role), content: String::from_str(content) }
}

/// The messages of a single question.
pub fn single_messages(prompt: &str) -> (r: Vec<ChatMessage>)
    ensures
        types::message_texts(r@) == seq![system_turn(), turn("user"@, prompt@)],
{
    let mut out: Vec<ChatMessage> = Vec::new();
    out.push(message("system", SYSTEM_PROMPT));
    out.push(message("user", prompt));
    assert(types::message_texts(out@) =~= seq![system_turn(), turn("user"@, prompt@)]);
    out
}

// ----------------------------------------------------------------- conversation

/// What a typed line asks for.
#[derive(Debug, Clone, Copy, PartialEq, Eq, Structural)]
pub enum Intent {
    /// Nothing: an empty line.
    Nothing,
    /// To end the chat.
    Exit,
    /// To forget the conversation.
    Clear,
    /// To be told the commands.
    Help,
    /// An answer.
    Ask,
}

/// What a line, with no space around it, asks for.
pub open spec fn intent_of(line: Seq<char>) -> Intent {
    if line.len() == 0 {
        Intent::Nothing
    } else if line == "/exit"@ || line == "/quit"@ || line == "/q"@ {
        Intent::Exit
    } else if line == "/clear"@ || line == "/reset"@ {
        Intent::Clear
    } else if line == "/help"@ {
        Intent::Help
    } else {
        Intent::Ask
    }
}

fn read_intent(line: &[char]) -> (r: Intent)
    ensures
        r == intent_of(line@),
{
    if line.len() == 0 {
        Intent::Nothing
    } else if text::is_text(line, "/exit") || text::is_text(line, "/quit") || text::is_text(
        line,
        "/q",
    ) {
        Intent::Exit
    } else if text::is_text(line, "/clear") || text::is_text(line, "/reset") {
        Intent::Clear
    } else if text::is_text(line, "/help") {
        Intent::Help
    } else {
        Intent::Ask
    }
}

/// A conversation: the system's message, then questions and answers.
#[derive(Debug)]
pub struct Conversation {
    history: Vec<ChatMessage>,
}

impl View for Conversation {
    type V = Seq<MessageView>;

    closed spec fn view(&self) -> Seq<MessageView> {
        types::message_texts(self.history@)
    }
}

/// A conversation begins with the system's message.
pub open spec fn begins_well(history: Seq<MessageView>) -> bool {
    history.len() > 0 && history[0] == system_turn()
}

/// The conversation after a typed line: a question is added, and a wish to forget
/// leaves the system's message alone.
pub open spec fn after_line(history: Seq<MessageView>, raw: Seq<char>) -> Seq<MessageView> {
    let line = text::trimmed(raw);
    match intent_of(line) {
        Intent::Ask => history.push(turn("user"@, line)),
        Intent::Clear => history.take(1),
        _ => history,
    }
}

impl Conversation {
    #[verifier::type_invariant]
    spec fn has_system_turn(self) -> bool {
        begins_well(types::message_texts(self.history@))
    }

    /// A conversation in which nothing has been asked.
    pub fn new() -> (r: Self)
        ensures
            r@ == seq![system_turn()],
    {
        let mut history: Vec<ChatMessage> = Vec::new();
        history.push(message("system", SYSTEM_PROMPT));
        assert(types::message_texts(history@) =~= seq![system_turn()]);
        Conversation { history }
    }

    /// The messages to send: all of them.
    pub fn messages(&self) -> (r: &Vec<ChatMessage>)
        ensures
            types::message_texts(r@) == self@,
            begins_well(self@),
    {
        proof {
            use_type_invariant(self);
        }
        &self.history
    }

    /// Takes in a typed line, and tells what it asks for.
    pub fn enter(&mut self, raw: &str) -> (r: Intent)
        ensures
            r == intent_of(text::trimmed(raw@)),
            final(self)@ == after_line(old(self)@, raw@),
            begins_well(final(self)@),
    {
        proof {
            use_type_invariant(&*self);
        }
        let ghost before = self@;
        let chars = text::chars_of(raw);
        let line: &[char] = text::trim(chars.as_slice());
        let intent = read_intent(line);
        match intent {
            Intent::Ask => {
                let mut history: Vec<ChatMessage> = Conversation::new().history;
                std::mem::swap(&mut history, &mut self.history);
                let question = text::string_of(line);
                history.push(message("user", question.as_str()));
                assert(types::message_texts(history@) =~= before.push(turn("user"@, line@)));
                self.history = history;
            },
            Intent::Clear => {
                *self = Conversation::new();
                assert(before.take(1) =~= seq![system_turn()]);
            },
            _ => {},
        }
        intent
    }

    /// Takes the last question back, after a turn that failed, so that the next is
    /// not spoiled by it.
    pub fn take_back(&mut self)
        requires
            old(self)@.len() > 1,
        ensures
            final(self)@ == old(self)@.drop_last(),
            begins_well(final(self)@),
    {
        proof {
            use_type_invariant(&*self);
        }
        let ghost before = self@;
        let mut history: Vec<ChatMessage> = Conversation::new().history;
        std::mem::swap(&mut history, &mut self.history);
        let _ = history.pop();
        assert(types::message_texts(history@) =~= before.drop_last());
        self.history = history;
    }

    /// Takes in the answer to the last question.
    pub fn answer(&mut self, content: &str)
        ensures
            final(self)@ == old(self)@.push(turn("assistant"@, content@)),
            begins_well(final(self)@),
    {
        proof {
            use_type_invariant(&*self);
        }
        let ghost before = self@;
        let mut history: Vec<ChatMessage> = Conversation::new().history;
        std::mem::swap(&mut history, &mut self.history);
        history.push(message("assistant", content));
        assert(types::message_texts(history@) =~= before.push(turn("assistant"@, content@)));
        self.history = history;
    }
}

/// A turn that fails leaves no trace: taking the question back gives the
/// conversation before it.
pub proof fn law_failed_turn_leaves_no_trace(history: Seq<MessageView>, raw: Seq<char>)
    requires
        intent_of(text::trimmed(raw)) == Intent::Ask,
    ensures
        after_line(history, raw).drop_last() == history,
        after_line(history, raw).len() == history.len() + 1,
{
    assert(after_line(history, raw).drop_last() =~= history);
}

/// Whatever is typed, the conversation keeps the system's message in front, and
/// forgetting leaves just that.
pub proof fn law_system_message_stays(history: Seq<MessageView>, raw: Seq<char>)
    requires
        begins_well(history),
    ensures
        begins_well(after_line(history, raw)),
        intent_of(text::trimmed(raw)) == Intent::Clear ==> after_line(history, raw) == seq![
            system_turn(),
        ],
{
    if intent_of(text::trimmed(raw)) == Intent::Clear {
        assert(history.take(1) =~= seq![system_turn()]);
    }
}

// ---------------------------------------------------------------------- answer

/// `s` without the line ends and carriage returns at its end.
pub open spec fn without_line_end(s: Seq<u8>) -> Seq<u8>
    decreases s.len(),
{
    if s.len() > 0 && (s.last() == stream::NEWLINE || s.last() == stream::CARRIAGE_RETURN) {
        without_line_end(s.drop_last())
    } else {
        s
    }
}

/// What a line of the answer's stream carries, still to be read.
pub open spec fn carried(line: Seq<u8>) -> Option<Seq<char>> {
    let s = without_line_end(line);
    if vstd::utf8::valid_utf8(s) {
        let t = vstd::utf8::decode_utf8(s);
        if t != "data: [DONE]"@ && "data: "@.is_prefix_of(t) {
            Some(t.skip("data: "@.len() as int))
        } else {
            None
        }
    } else {
        None
    }
}

fn trim_line_end(s: &[u8]) -> (r: &[u8])
    ensures
        r@ == without_line_end(s@),
{
    let mut n: usize = s.len();
    assert(s@.take(n as int) =~= s@);
    while n > 0 && (s[n - 1] == stream::NEWLINE || s[n - 1] == stream::CARRIAGE_RETURN)
        invariant
            n <= s@.len(),
            without_line_end(s@.take(n as int)) == without_line_end(s@),
        decreases n,
    {
        assert(s@.take(n as int).drop_last() =~= s@.take(n - 1));
        n = n - 1;
    }
    let r = slice_subrange(s, 0, n);
    assert(r@ =~= s@.take(n as int));
    r
}

/// What a line of the answer's stream carries: nothing where it is not UTF-8, does
/// not begin with `data: `, or ends the answer.
pub fn read_line(line: &[u8]) -> (r: Option<String>)
    ensures
        match r {
            Some(s) => carried(line@) == Some(s@),
            None => carried(line@) is None,
        },
{
    match stream::utf8_text(trim_line_end(line)) {
        Some(t) => {
            let chars = text::chars_of(t);
            if text::is_text(chars.as_slice(), "data: [DONE]") {
                return None;
            }
            match text::strip_prefix(chars.as_slice(), "data: ") {
                Some(data) => Some(text::string_of(data)),
                None => None,
            }
        },
        None => None,
    }
}

/// The answer as far as it has come, and its token counts where they have.
#[derive(Debug)]
pub struct Answer {
    pub content: String,
    pub usage: Option<Usage>,
}

impl Answer {
    /// An answer of which nothing has come.
    pub fn new() -> (r: Self)
        ensures
            r.content@ == Seq::<char>::empty(),
            r.usage is None,
    {
        Answer { content: String::new(), usage: None }
    }

    /// Takes in a piece of the answer, and hands out the text to show.
    pub fn take(&mut self, piece: &ChatCompletionResponse) -> (r: String)
        ensures
            r@ == stream::delta_content(*piece),
            final(self).content@ == old(self).content@ + r@,
            final(self).usage == match piece.usage {
                Some(u) => Some(u),
                None => old(self).usage,
            },
    {
        let more: String = if piece.choices.len() > 0 {
            match &piece.choices[0].delta {
                Some(d) => d.content.clone(),
                None => String::new(),
            }
        } else {
            String::new()
        };
        self.content.append(more.as_str());
        if let Some(u) = piece.usage {
            self.usage = Some(u);
        }
        more
    }
}

/// The line that tells an answer's token counts.
pub fn usage_line(u: Usage) -> (r: String)
    ensures
        r@ == "[tokens: prompt="@ + number::decimal(u.prompt_tokens as nat) + " completion="@
            + number::decimal(u.completion_tokens as nat) + " total="@ + number::decimal(
            u.total_tokens as nat,
        ) + "]"@,
{
    let prompt = number::to_decimal(u.prompt_tokens as u64);
    let completion = number::to_decimal(u.completion_tokens as u64);
    let total = number::to_decimal(u.total_tokens as u64);
    let mut r = String::from_str("[tokens: prompt=").concat(prompt.as_str());
    r.append(" completion=");
    r.append(completion.as_str());
    r.append(" total=");
    r.append(total.as_str());
    r.append("]");
    r
}

// ----------------------------------------------------------------------- words

/// The lines that open a chat with a model.
pub open spec fn banner_text(model: Seq<char>) -> Seq<char> {
    let bar = style::CYAN@ + style::BOLD@;
    bar + "╭──────────────────────────────────────────────╮"@ + style::RESET@ + "\n"@ + bar
        + "│  localllm chat"@ + style::RESET@ + "\n"@ + bar + "│"@ + style::RESET@ + "  model: "@
        + style::GREEN@ + model + style::RESET@ + "\n"@ + bar + "│"@ + style::RESET@ + "  "@
        + style::DIM@ + "/exit quit · /clear reset history · Ctrl+C to quit"@ + style::RESET@
        + "\n"@ + bar + "╰──────────────────────────────────────────────╯"@ + style::RESET@ + "\n"@
}

fn append_bar(out: &mut String)
    ensures
        final(out)@ == old(out)@ + (style::CYAN@ + style::BOLD@),
{
    out.append(style::CYAN);
    out.append(style::BOLD);
}

fn append_reset_line(out: &mut String)
    ensures
        final(out)@ == old(out)@ + style::RESET@ + "\n"@,
{
    out.append(style::RESET);
    out.append("\n");
}

/// Writes the lines that open a chat with a model.
pub fn banner(model: &str) -> (r: String)
    ensures
        r@ == banner_text(model@),
{
    let mut out = String::new();
    append_bar(&mut out);
    out.append("╭──────────────────────────────────────────────╮");
    append_reset_line(&mut out);
    append_bar(&mut out);
    out.append("│  localllm chat");
    append_reset_line(&mut out);
    append_bar(&mut out);
    out.append("│");
    out.append(style::RESET);
    out.append("  model: ");
    out.append(style::GREEN);
    out.append(model);
    append_reset_line(&mut out);
    append_bar(&mut out);
    out.append("│");
    out.append(style::RESET);
    out.append("  ");
    out.append(style::DIM);
    out.append("/exit quit · /clear reset history · Ctrl+C to quit");
    append_reset_line(&mut out);
    append_bar(&mut out);
    out.append("╰──────────────────────────────────────────────╯");
    append_reset_line(&mut out);
    assert(out@ =~= banner_text(model@));
    out
}

/// What is said to a line that asks for something but an answer.
pub open spec fn reply_to(intent: Intent) -> Option<Seq<char>> {
    match intent {
        Intent::Exit => Some(style::styled(style::DIM@, "Goodbye."@)),
        Intent::Clear => Some(style::styled(style::YELLOW@, "(history cleared)"@)),
        Intent::Help => Some(style::styled(style::DIM@, "commands: /exit  /clear  /help"@)),
        Intent::Nothing => None,
        Intent::Ask => None,
    }
}

/// What is said to a line that asks for something but an answer.
pub fn spoken_reply(intent: Intent) -> (r: Option<String>)
    ensures
        crate::registry::modelfile::text_option(r) == reply_to(intent),
{
    match intent {
        Intent::Exit => Some(style::dim("Goodbye.")),
        Intent::Clear => Some(style::warn("(history cleared)")),
        Intent::Help => Some(style::dim("commands: /exit  /clear  /help")),
        Intent::Nothing => None,
        Intent::Ask => None,
    }
}

/// Whether a line ends the chat.
pub fn ends_chat(intent: Intent) -> (r: bool)
    ensures
        r == (intent == Intent::Exit),
{
    match intent {
        Intent::Exit => true,
        _ => false,
    }
}

} // verus!

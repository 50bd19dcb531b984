//! Modelfiles: the directives that derive a model from another one.
//!
//! `FROM`, `SYSTEM`, `TEMPLATE`, `PARAMETER` and `MESSAGE` are understood;
//! anything else is passed over.
use crate::api::types::ChatMessage;
use crate::text;
use vstd::prelude::*;
use vstd::slice::slice_subrange;
use vstd::string::StringExecFns;

verus! {

broadcast use vstd::string::group_string_axioms;

/// A seed message of a Modelfile.
#[derive(Debug)]
pub struct TemplateMessage {
    pub role: String,
    pub content: String,
}

/// A parsed Modelfile. `source` is the text that it was parsed from.
#[derive(Debug)]
pub struct Modelfile {
    pub from: Option<String>,
    pub system: Option<String>,
    pub template: Option<String>,
    pub parameters: Vec<(String, String)>,
    pub messages: Vec<TemplateMessage>,
    pub source: String,
}

/// A Modelfile as text.
#[verifier::ext_equal]
pub struct ModelfileView {
    pub from: Option<Seq<char>>,
    pub system: Option<Seq<char>>,
    pub template: Option<Seq<char>>,
    pub parameters: Seq<(Seq<char>, Seq<char>)>,
    pub messages: Seq<crate::api::types::MessageView>,
    pub source: Seq<char>,
}

/// An optional string as text.
pub open spec fn text_option(s: Option<String>) -> Option<Seq<char>> {
    match s {
        Some(v) => Some(v@),
        None => None,
    }
}

impl View for TemplateMessage {
    type V = crate::api::types::MessageView;

    open spec fn view(&self) -> crate::api::types::MessageView {
        crate::api::types::MessageView { role: self.role@, content: self.content@ }
    }
}

impl View for Modelfile {
    type V = ModelfileView;

    open spec fn view(&self) -> ModelfileView {
        ModelfileView {
            from: text_option(self.from),
            system: text_option(self.system),
            template: text_option(self.template),
            parameters: self.parameters@.map_values(|p: (String, String)| (p.0@, p.1@)),
            messages: self.messages@.map_values(|m: TemplateMessage| m@),
            source: self.source@,
        }
    }
}

impl Clone for TemplateMessage {
    fn clone(&self) -> (r: Self)
        ensures
            r == *self,
    {
        TemplateMessage { role: self.role.clone(), content: self.content.clone() }
    }
}

impl Clone for Modelfile {
    fn clone(&self) -> (r: Self)
        ensures
            r@ == self@,
    {
        let from: Option<String> = match &self.from {
            Some(s) => Some(s.clone()),
            None => None,
        };
        let system: Option<String> = match &self.system {
            Some(s) => Some(s.clone()),
            None => None,
        };
        let template: Option<String> = match &self.template {
            Some(s) => Some(s.clone()),
            None => None,
        };
        let mut parameters: Vec<(String, String)> = Vec::new();
        let mut i: usize = 0;
        while i < self.parameters.len()
            invariant
                i <= self.parameters@.len(),
                parameters@ == self.parameters@.take(i as int),
            decreases self.parameters@.len() - i,
        {
            let p = &self.parameters[i];
            parameters.push((p.0.clone(), p.1.clone()));
            i = i + 1;
            assert(self.parameters@.take(i as int) == self.parameters@.take(i - 1).push(
                self.parameters@[i - 1],
            ));
        }
        assert(self.parameters@.take(i as int) == self.parameters@);
        let r = Modelfile {
            from,
            system,
            template,
            parameters,
            messages: self.messages.clone(),
            source: self.source.clone(),
        };
        assert(r.messages@ =~= self.messages@);
        assert(r@ =~= self@);
        r
    }
}

/// A triple-quoted block runs to the end of the text.
#[derive(Debug, Clone, Copy, PartialEq, Eq, Structural)]
pub enum ModelfileError {
    UnterminatedBlock,
}

impl ModelfileError {
    /// The error as a sentence.
    pub fn message(&self) -> (r: String)
        ensures
            r@ == "Unterminated triple-quoted block in Modelfile"@,
    {
        String::from_str("Unterminated triple-quoted block in Modelfile")
    }
}

// ------------------------------------------------------------------ directives

/// `s` without the whitespace around it, and without one pair of equal quotes
/// around that.
pub open spec fn unquoted(s: Seq<char>) -> Seq<char> {
    let t = text::trimmed(s);
    if t.len() >= 2 && ((t[0] == '"' && t.last() == '"') || (t[0] == '\'' && t.last() == '\'')) {
        t.subrange(1, t.len() - 1)
    } else {
        t
    }
}

/// Strips one pair of matching outer quotes, single or double.
pub fn strip_quotes(s: &[char]) -> (r: &[char])
    ensures
        r@ == unquoted(s@),
{
    let t: &[char] = text::trim(s);
    let n: usize = t.len();
    if n >= 2 && ((t[0] == '"' && t[n - 1] == '"') || (t[0] == '\'' && t[n - 1] == '\'')) {
        slice_subrange(t, 1, n - 1)
    } else {
        t
    }
}

/// The Modelfile after one directive, given in upper case, with its value.
/// `PARAMETER` and `MESSAGE` take a word and a value; without the value they
/// change nothing, as unknown directives do.
pub open spec fn applied(
    mf: ModelfileView,
    directive: Seq<char>,
    value: Seq<char>,
) -> ModelfileView {
    if directive == "FROM"@ {
        ModelfileView { from: Some(value), ..mf }
    } else if directive == "SYSTEM"@ {
        ModelfileView { system: Some(value), ..mf }
    } else if directive == "TEMPLATE"@ {
        ModelfileView { template: Some(value), ..mf }
    } else if directive == "PARAMETER"@ {
        match text::split_at_space(value) {
            Some((k, v)) => ModelfileView {
                parameters: mf.parameters.push(
                    (text::lowercase_of(text::trimmed(k)), text::trimmed(v)),
                ),
                ..mf
            },
            None => mf,
        }
    } else if directive == "MESSAGE"@ {
        match text::split_at_space(value) {
            Some((role, content)) => ModelfileView {
                messages: mf.messages.push(
                    crate::api::types::MessageView {
                        role: text::lowercase_of(text::trimmed(role)),
                        content: unquoted(text::trimmed(content)),
                    },
                ),
                ..mf
            },
            None => mf,
        }
    } else {
        mf
    }
}

impl Modelfile {
    /// A Modelfile with no directives, of the given source.
    fn empty(source: &str) -> (r: Self)
        ensures
            r@ == no_directives(source@),
    {
        let r = Modelfile {
            from: None,
            system: None,
            template: None,
            parameters: Vec::new(),
            messages: Vec::new(),
            source: String::from_str(source),
        };
        assert(r@ =~= no_directives(source@));
        r
    }

    /// Takes one directive, given in upper case, with its value.
    pub fn apply(&mut self, directive: &str, value: &[char])
        ensures
            final(self)@ == applied(old(self)@, directive@, value@),
    {
        let ghost before = self@;
        if text::same_text(directive, "FROM") {
            self.from = Some(text::string_of(value));
        } else if text::same_text(directive, "SYSTEM") {
            self.system = Some(text::string_of(value));
        } else if text::same_text(directive, "TEMPLATE") {
            self.template = Some(text::string_of(value));
        } else if text::same_text(directive, "PARAMETER") {
            if let Some((k, v)) = text::split_once_space(value) {
                let key = text::string_of(text::trim(k)).to_lowercase();
                let val = text::string_of(text::trim(v));
                self.parameters.push((key, val));
            }
        } else if text::same_text(directive, "MESSAGE") {
            if let Some((r, c)) = text::split_once_space(value) {
                let role = text::string_of(text::trim(r)).to_lowercase();
                let content = text::string_of(strip_quotes(text::trim(c)));
                self.messages.push(TemplateMessage { role, content });
            }
        }
        assert(self@ =~= applied(before, directive@, value@));
    }
}

/// A Modelfile with no directives, of the given source.
pub open spec fn no_directives(source: Seq<char>) -> ModelfileView {
    ModelfileView {
        from: None,
        system: None,
        template: None,
        parameters: Seq::empty(),
        messages: Seq::empty(),
        source,
    }
}

// --------------------------------------------------------------------- parsing

/// A parse in progress: what has been taken, and the directive and the text of
/// the triple-quoted block that is open.
#[verifier::ext_equal]
pub struct ParseState {
    pub taken: ModelfileView,
    pub open: Option<(Seq<char>, Seq<char>)>,
}

/// The parse after one more line. In an open block the line is block text up to
/// the closing quotes. Else a blank line or a comment is passed over, and any
/// other line is a directive with a value: a quoted text, a triple-quoted text,
/// or plain words.
pub open spec fn line_taken(st: ParseState, raw: Seq<char>) -> ParseState {
    let line = text::trimmed_end(raw);
    let quotes = "\"\"\""@;
    match st.open {
        Some((directive, buffer)) => match text::occurrence_from(line, quotes, 0) {
            Some(end) => ParseState {
                taken: applied(st.taken, directive, text::trimmed(buffer + line.take(end))),
                open: None,
            },
            None => ParseState { open: Some((directive, (buffer + line).push('\n'))), ..st },
        },
        None => {
            let t = text::trimmed_start(line);
            if t.len() == 0 || t[0] == '#' {
                st
            } else {
                let (word, rest) = match text::split_at_space(t) {
                    Some((d, r)) => (d, text::trimmed(r)),
                    None => (t, Seq::empty()),
                };
                let directive = text::uppercase_of(word);
                if quotes.is_prefix_of(rest) {
                    let body = rest.skip(3);
                    match text::occurrence_from(body, quotes, 0) {
                        Some(end) => ParseState {
                            taken: applied(st.taken, directive, text::trimmed(body.take(end))),
                            open: None,
                        },
                        None => ParseState { open: Some((directive, body.push('\n'))), ..st },
                    }
                } else {
                    ParseState { taken: applied(st.taken, directive, unquoted(rest)), open: None }
                }
            }
        },
    }
}

/// The parse of the given lines.
pub open spec fn lines_taken(st: ParseState, lines: Seq<Seq<char>>) -> ParseState
    decreases lines.len(),
{
    if lines.len() == 0 {
        st
    } else {
        line_taken(lines_taken(st, lines.drop_last()), lines.last())
    }
}

/// The parse of a whole text.
pub open spec fn parsed(source: Seq<char>) -> ParseState {
    lines_taken(
        ParseState { taken: no_directives(source), open: None },
        text::lines_of(source),
    )
}

/// A parse in progress.
struct Parser {
    taken: Modelfile,
    open: Option<(String, Vec<char>)>,
}

impl Parser {
    spec fn state(&self) -> ParseState {
        ParseState {
            taken: self.taken@,
            open: match self.open {
                Some((d, b)) => Some((d@, b@)),
                None => None,
            },
        }
    }

    fn take_line(&mut self, raw: &[char])
        ensures
            final(self).state() == line_taken(old(self).state(), raw@),
    {
        let ghost before = self.state();
        let line: &[char] = text::trim_end(raw);
        proof {
            reveal_strlit("\"\"\"");
        }
        match self.open.take() {
            Some((directive, mut buffer)) => {
                match text::find_from(line, "\"\"\"", 0) {
                    Some(end) => {
                        text::push_chars(&mut buffer, slice_subrange(line, 0, end));
                        self.taken.apply(directive.as_str(), text::trim(buffer.as_slice()));
                    },
                    None => {
                        text::push_chars(&mut buffer, line);
                        buffer.push('\n');
                        self.open = Some((directive, buffer));
                    },
                }
                assert(self.state() =~= line_taken(before, raw@));
            },
            None => {
                let t: &[char] = text::trim_start(line);
                if t.len() == 0 || t[0] == '#' {
                    assert(self.state() =~= line_taken(before, raw@));
                    return;
                }
                let (word, rest): (&[char], &[char]) = match text::split_once_space(t) {
                    Some((d, r)) => (d, text::trim(r)),
                    None => (t, slice_subrange(t, 0, 0)),
                };
                let directive = text::string_of(word).to_uppercase();
                match text::strip_prefix(rest, "\"\"\"") {
                    Some(body) => {
                        match text::find_from(body, "\"\"\"", 0) {
                            Some(end) => {
                                self.taken.apply(
                                    directive.as_str(),
                                    text::trim(slice_subrange(body, 0, end)),
                                );
                            },
                            None => {
                                let mut buffer: Vec<char> = Vec::new();
                                text::push_chars(&mut buffer, body);
                                buffer.push('\n');
                                assert(buffer@ == body@.push('\n'));
                                self.open = Some((directive, buffer));
                            },
                        }
                    },
                    None => {
                        self.taken.apply(directive.as_str(), strip_quotes(rest));
                    },
                }
                assert(self.state() =~= line_taken(before, raw@));
            },
        }
    }
}

impl Modelfile {
    /// Parses the text of a Modelfile. It fails exactly when a triple-quoted
    /// block is not closed.
    pub fn parse(source: &str) -> (r: Result<Self, ModelfileError>)
        ensures
            match r {
                Ok(mf) => parsed(source@).open is None && mf@ == parsed(source@).taken,
                Err(e) => parsed(source@).open is Some && e == ModelfileError::UnterminatedBlock,
            },
    {
        let chars = text::chars_of(source);
        let lines = text::split_lines(chars.as_slice());
        let mut parser = Parser { taken: Modelfile::empty(source), open: None };
        let ghost start = ParseState { taken: no_directives(source@), open: None };
        let ghost all = text::texts(lines@);
        assert(parser.state() =~= start);
        let mut i: usize = 0;
        while i < lines.len()
            invariant
                i <= lines@.len(),
                all == text::texts(lines@),
                parser.state() == lines_taken(start, all.take(i as int)),
            decreases lines@.len() - i,
        {
            assert(all.take(i + 1).drop_last() == all.take(i as int));
            assert(all[i as int] == lines@[i as int]@);
            parser.take_line(lines[i].as_slice());
            i = i + 1;
        }
        assert(all.take(i as int) == all);
        match parser.open {
            Some(_) => Err(ModelfileError::UnterminatedBlock),
            None => Ok(parser.taken),
        }
    }
}

// ------------------------------------------------------------------- templates

/// `s` without the dots it begins with.
pub open spec fn undotted(s: Seq<char>) -> Seq<char>
    decreases s.len(),
{
    if s.len() > 0 && s[0] == '.' {
        undotted(s.skip(1))
    } else {
        s
    }
}

/// What stands for the placeholder with the given text between its braces: a
/// value for a known name, in any case; the placeholder itself for another.
pub open spec fn placeholder_value(
    raw: Seq<char>,
    system: Seq<char>,
    prompt: Seq<char>,
    response: Seq<char>,
) -> Seq<char> {
    let key = text::ascii_lower(undotted(text::trimmed(raw)));
    if key == "system"@ {
        system
    } else if key == "prompt"@ {
        prompt
    } else if key == "response"@ {
        response
    } else {
        "{{"@ + raw + "}}"@
    }
}

/// A template with its placeholders replaced. Text outside `{{ .. }}` stands as
/// it is, and so does an opening that is never closed.
pub open spec fn substituted(
    tpl: Seq<char>,
    system: Seq<char>,
    prompt: Seq<char>,
    response: Seq<char>,
) -> Seq<char>
    decreases tpl.len(),
{
    match text::occurrence_from(tpl, "{{"@, 0) {
        Some(open) => {
            let after = tpl.skip(open + 2);
            proof {
                reveal_strlit("{{");
                reveal_strlit("}}");
                text::lemma_occurrence_from(tpl, "{{"@, 0);
                text::lemma_occurrence_from(after, "}}"@, 0);
            }
            match text::occurrence_from(after, "}}"@, 0) {
                Some(close) => tpl.take(open) + placeholder_value(
                    after.take(close),
                    system,
                    prompt,
                    response,
                ) + substituted(after.skip(close + 2), system, prompt, response),
                None => tpl,
            }
        },
        None => tpl,
    }
}

fn skip_dots(s: &[char]) -> (r: &[char])
    ensures
        r@ == undotted(s@),
{
    let n: usize = s.len();
    let mut i: usize = 0;
    assert(s@.skip(0) == s@);
    while i < n && s[i] == '.'
        invariant
            n == s@.len(),
            i <= n,
            undotted(s@) == undotted(s@.skip(i as int)),
        decreases n - i,
    {
        assert(s@.skip(i as int).skip(1) == s@.skip(i + 1));
        i = i + 1;
    }
    slice_subrange(s, i, n)
}

fn append_placeholder(out: &mut String, raw: &[char], system: &str, prompt: &str, response: &str)
    ensures
        final(out)@ == old(out)@ + placeholder_value(raw@, system@, prompt@, response@),
{
    let ghost before = out@;
    let key = text::to_ascii_lowercase(skip_dots(text::trim(raw)));
    if text::is_text(key.as_slice(), "system") {
        out.append(system);
    } else if text::is_text(key.as_slice(), "prompt") {
        out.append(prompt);
    } else if text::is_text(key.as_slice(), "response") {
        out.append(response);
    } else {
        out.append("{{");
        text::append_chars(out, raw);
        out.append("}}");
        assert(out@ == before + ("{{"@ + raw@ + "}}"@));
    }
}

/// Replaces the `{{ .Name }}` placeholders of a template. Whitespace around the
/// dotted name is tolerated; unknown names are left as they are.
pub fn substitute(tpl: &str, system: &str, prompt: &str, response: &str) -> (out: String)
    ensures
        out@ == substituted(tpl@, system@, prompt@, response@),
{
    let chars = text::chars_of(tpl);
    let mut out = String::new();
    let mut rest: &[char] = chars.as_slice();
    proof {
        reveal_strlit("{{");
        reveal_strlit("}}");
    }
    loop
        invariant
            "{{"@.len() == 2,
            "}}"@.len() == 2,
            out@ + substituted(rest@, system@, prompt@, response@) == substituted(
                tpl@,
                system@,
                prompt@,
                response@,
            ),
        decreases rest@.len(),
    {
        let ghost before = out@;
        let n: usize = rest.len();
        let open: usize = match text::find_from(rest, "{{", 0) {
            Some(i) => i,
            None => {
                text::append_chars(&mut out, rest);
                return out;
            },
        };
        let after: &[char] = slice_subrange(rest, open + 2, n);
        let m: usize = after.len();
        assert(after@ == rest@.skip(open + 2));
        let close: usize = match text::find_from(after, "}}", 0) {
            Some(i) => i,
            None => {
                text::append_chars(&mut out, rest);
                return out;
            },
        };
        let raw: &[char] = slice_subrange(after, 0, close);
        let next: &[char] = slice_subrange(after, close + 2, m);
        assert(raw@ == after@.take(close as int));
        assert(next@ == after@.skip(close + 2));
        text::append_chars(&mut out, slice_subrange(rest, 0, open));
        append_placeholder(&mut out, raw, system, prompt, response);
        assert(out@ + substituted(next@, system@, prompt@, response@) == before + (rest@.take(
            open as int,
        ) + placeholder_value(raw@, system@, prompt@, response@) + substituted(
            next@,
            system@,
            prompt@,
            response@,
        )));
        rest = next;
    }
}

/// The prompt under a Modelfile's template: with no template, the prompt itself.
pub open spec fn rendered_prompt(mf: ModelfileView, prompt: Seq<char>) -> Seq<char> {
    match mf.template {
        Some(tpl) => substituted(
            tpl,
            match mf.system {
                Some(s) => s,
                None => Seq::empty(),
            },
            prompt,
            Seq::empty(),
        ),
        None => prompt,
    }
}

/// The caller gave a system message.
pub open spec fn has_system(messages: Seq<crate::api::types::MessageView>) -> bool {
    exists|i: int| 0 <= i < messages.len() && #[trigger] messages[i].role == "system"@
}

/// The messages to send upstream: the Modelfile's system message, unless the
/// caller gave one; its seed messages; the caller's messages.
pub open spec fn composed(
    mf: ModelfileView,
    messages: Seq<crate::api::types::MessageView>,
) -> Seq<crate::api::types::MessageView> {
    let system = match mf.system {
        Some(s) => if has_system(messages) {
            Seq::empty()
        } else {
            seq![crate::api::types::MessageView { role: "system"@, content: s }]
        },
        None => Seq::empty(),
    };
    system + mf.messages + messages
}

impl Modelfile {
    /// Renders the template with the given prompt and the Modelfile's system text;
    /// without a template the prompt stands as it is.
    pub fn render_template(&self, prompt: &str) -> (out: String)
        ensures
            out@ == rendered_prompt(self@, prompt@),
    {
        proof {
            reveal_strlit("");
            assert(""@ == Seq::<char>::empty());
        }
        match &self.template {
            Some(tpl) => {
                let system: &str = match &self.system {
                    Some(s) => s.as_str(),
                    None => "",
                };
                substitute(tpl.as_str(), system, prompt, "")
            },
            None => String::from_str(prompt),
        }
    }

    /// Composes the message list to send upstream.
    pub fn apply_to_messages(&self, user_messages: &[ChatMessage]) -> (out: Vec<ChatMessage>)
        ensures
            crate::api::types::message_texts(out@) == composed(
                self@,
                crate::api::types::message_texts(user_messages@),
            ),
    {
        let ghost users = crate::api::types::message_texts(user_messages@);
        let mut out: Vec<ChatMessage> = Vec::new();
        let caller_has_system: bool = names_system(user_messages);
        if !caller_has_system {
            if let Some(s) = &self.system {
                out.push(ChatMessage { role: String::from_str("system"), content: s.clone() });
            }
        }
        let ghost head = crate::api::types::message_texts(out@);
        assert(head + self@.messages.take(0) == head);
        let mut i: usize = 0;
        while i < self.messages.len()
            invariant
                i <= self.messages@.len(),
                crate::api::types::message_texts(out@) == head + self@.messages.take(i as int),
            decreases self.messages@.len() - i,
        {
            let ghost before = out@;
            let seed = &self.messages[i];
            out.push(ChatMessage { role: seed.role.clone(), content: seed.content.clone() });
            i = i + 1;
            assert(self@.messages.take(i as int) == self@.messages.take(i - 1).push(
                self@.messages[i - 1],
            ));
            assert(crate::api::types::message_texts(out@) =~= crate::api::types::message_texts(
                before,
            ).push(self@.messages[i - 1]));
        }
        assert(self@.messages.take(i as int) == self@.messages);
        let ghost seeded = head + self@.messages;
        assert(seeded + users.take(0) == seeded);
        let mut j: usize = 0;
        while j < user_messages.len()
            invariant
                j <= user_messages@.len(),
                users == crate::api::types::message_texts(user_messages@),
                crate::api::types::message_texts(out@) == seeded + users.take(j as int),
            decreases user_messages@.len() - j,
        {
            let ghost before = out@;
            out.push(user_messages[j].clone());
            j = j + 1;
            assert(users.take(j as int) == users.take(j - 1).push(users[j - 1]));
            assert(crate::api::types::message_texts(out@) =~= crate::api::types::message_texts(
                before,
            ).push(users[j - 1]));
        }
        assert(users.take(j as int) == users);
        assert(seeded + users == composed(self@, users));
        out
    }
}

fn names_system(messages: &[ChatMessage]) -> (r: bool)
    ensures
        r == has_system(crate::api::types::message_texts(messages@)),
{
    let ghost all = crate::api::types::message_texts(messages@);
    let mut i: usize = 0;
    while i < messages.len()
        invariant
            i <= messages@.len(),
            all == crate::api::types::message_texts(messages@),
            forall|j: int| 0 <= j < i ==> #[trigger] all[j].role != "system"@,
        decreases messages@.len() - i,
    {
        if text::same_text(messages[i].role.as_str(), "system") {
            assert(all[i as int].role == "system"@);
            return true;
        }
        i = i + 1;
    }
    false
}

// ------------------------------------------------------------------------ laws

/// The caller's system message wins: the Modelfile's is then left out, and its
/// seed messages still come before the caller's.
pub proof fn law_caller_system_wins(
    mf: ModelfileView,
    messages: Seq<crate::api::types::MessageView>,
)
    requires
        has_system(messages),
    ensures
        composed(mf, messages) == mf.messages + messages,
{
    assert(composed(mf, messages) =~= mf.messages + messages);
}

/// A Modelfile with no system message and no seed messages leaves the caller's
/// messages as they are.
pub proof fn law_empty_modelfile_keeps_messages(
    mf: ModelfileView,
    messages: Seq<crate::api::types::MessageView>,
)
    requires
        mf.system is None,
        mf.messages.len() == 0,
    ensures
        composed(mf, messages) == messages,
{
    assert(composed(mf, messages) =~= messages);
}

/// A template with no opening braces renders as it is.
pub proof fn law_template_without_placeholders(
    tpl: Seq<char>,
    system: Seq<char>,
    prompt: Seq<char>,
    response: Seq<char>,
)
    requires
        !text::contains_text(tpl, "{{"@),
    ensures
        substituted(tpl, system, prompt, response) == tpl,
{
    text::lemma_contains_text(tpl, "{{"@);
}

/// Quoting a value does not change it: a text between double or single quotes is
/// read as the text.
pub proof fn law_quoted_value_is_the_value(s: Seq<char>)
    ensures
        unquoted(seq!['"'] + s + seq!['"']) == s,
        unquoted(seq!['\''] + s + seq!['\'']) == s,
{
    let d = seq!['"'] + s + seq!['"'];
    let q = seq!['\''] + s + seq!['\''];
    text::lemma_leading_spaces_unique(d, 0);
    text::lemma_leading_spaces_unique(q, 0);
    assert(d.skip(0) == d);
    assert(q.skip(0) == q);
    assert(d.subrange(1, d.len() - 1) =~= s);
    assert(q.subrange(1, q.len() - 1) =~= s);
}

/// Blank lines and comments outside a block change nothing.
pub proof fn law_comments_are_ignored(st: ParseState, raw: Seq<char>)
    requires
        st.open is None,
        ({
            let t = text::trimmed_start(text::trimmed_end(raw));
            t.len() == 0 || t[0] == '#'
        }),
    ensures
        line_taken(st, raw) == st,
{
}

/// A parsed Modelfile keeps its source.
pub proof fn law_source_is_kept(source: Seq<char>)
    ensures
        parsed(source).taken.source == source,
{
    lemma_source_kept(
        ParseState { taken: no_directives(source), open: None },
        text::lines_of(source),
    );
}

proof fn lemma_source_kept(st: ParseState, lines: Seq<Seq<char>>)
    ensures
        lines_taken(st, lines).taken.source == st.taken.source,
    decreases lines.len(),
{
    if lines.len() > 0 {
        lemma_source_kept(st, lines.drop_last());
    }
}

/// Parsing a text with no triple quotes never fails.
pub proof fn law_parse_fails_only_on_triple_quotes(source: Seq<char>)
    requires
        !text::contains_text(source, "\"\"\""@),
    ensures
        parsed(source).open is None,
{
    let start = ParseState { taken: no_directives(source), open: None };
    text::lemma_lines_are_parts(source);
    lemma_no_block(start, text::lines_of(source), source);
}

proof fn lemma_no_block(st: ParseState, lines: Seq<Seq<char>>, source: Seq<char>)
    requires
        st.open is None,
        !text::contains_text(source, "\"\"\""@),
        forall|i: int| 0 <= i < lines.len() ==> text::is_part(#[trigger] lines[i], source),
    ensures
        lines_taken(st, lines).open is None,
    decreases lines.len(),
{
    if lines.len() > 0 {
        let front = lines.drop_last();
        assert forall|i: int| 0 <= i < front.len() implies text::is_part(
            #[trigger] front[i],
            source,
        ) by {
            assert(front[i] == lines[i]);
        }
        lemma_no_block(st, front, source);
        let raw = lines.last();
        assert(text::is_part(raw, source));
        let line = text::trimmed_end(raw);
        let t = text::trimmed_start(line);
        text::lemma_trims_are_parts(raw);
        text::lemma_trims_are_parts(line);
        text::lemma_part_transitive(line, raw, source);
        text::lemma_part_transitive(t, line, source);
        if let Some((d, r)) = text::split_at_space(t) {
            text::lemma_split_at_space(t);
            let rest = text::trimmed(r);
            text::lemma_trims_are_parts(r);
            text::lemma_part_transitive(r, t, source);
            text::lemma_part_transitive(rest, r, source);
            if "\"\"\""@.is_prefix_of(rest) {
                text::lemma_prefix_of_part("\"\"\""@, rest, source);
            }
        } else {
            reveal_strlit("\"\"\"");
        }
    }
}

} // verus!

//! Streamed answers: lines gathered from chunks of bytes, the events that they
//! carry, the frames that these become, and the tokens in them.
use crate::api::json;
use crate::api::json::{parse_json, Json, JsonView};
use crate::api::metrics::Metrics;
use crate::api::types::{ChatCompletionResponse, ChatMessage, OllamaStreamFrame};
use crate::number;
use crate::text;
use crate::time;
use crate::time::Timestamp;
use vstd::prelude::*;
use vstd::slice::{slice_subrange, slice_to_vec};
use vstd::string::StringExecFns;

verus! {

broadcast use {vstd::string::group_string_axioms, crate::api::json::lemma_json_view};

// ----------------------------------------------------------------------- lines

/// The byte that ends a line.
pub const NEWLINE: u8 = 10;

/// `memchr::memchr`: the position of the first byte equal to `needle`, if any.
pub assume_specification[ memchr::memchr ](needle: u8, haystack: &[u8]) -> (r: Option<usize>)
    ensures
        match r {
            Some(i) => i < haystack@.len() && haystack@[i as int] == needle && forall|j: int|
                0 <= j < i ==> haystack@[j] != needle,
            None => forall|j: int| 0 <= j < haystack@.len() ==> haystack@[j] != needle,
        },
;

/// The position of the first line end at or after `i`, or the length.
pub open spec fn line_end(s: Seq<u8>, i: int) -> int
    decreases s.len() - i,
{
    if i < 0 || i >= s.len() {
        s.len() as int
    } else if s[i] == NEWLINE {
        i
    } else {
        line_end(s, i + 1)
    }
}

/// The lines of `s` that are complete, without their ends.
pub open spec fn complete_lines(s: Seq<u8>) -> Seq<Seq<u8>>
    decreases s.len(),
{
    let i = line_end(s, 0);
    if 0 <= i < s.len() {
        seq![s.take(i)] + complete_lines(s.skip(i + 1))
    } else {
        Seq::empty()
    }
}

/// What follows the last line end of `s`.
pub open spec fn unfinished(s: Seq<u8>) -> Seq<u8>
    decreases s.len(),
{
    let i = line_end(s, 0);
    if 0 <= i < s.len() {
        unfinished(s.skip(i + 1))
    } else {
        s
    }
}

/// Lines as sequences of bytes.
pub open spec fn byte_lines(v: Seq<Vec<u8>>) -> Seq<Seq<u8>> {
    v.map_values(|l: Vec<u8>| l@)
}

proof fn lemma_line_end(s: Seq<u8>, i: int, at: int)
    requires
        0 <= i <= at <= s.len(),
        forall|j: int| i <= j < at ==> s[j] != NEWLINE,
        at < s.len() ==> s[at] == NEWLINE,
    ensures
        line_end(s, i) == at,
    decreases at - i,
{
    if i < at {
        lemma_line_end(s, i + 1, at);
    }
}

proof fn lemma_line_end_found(s: Seq<u8>, i: int)
    requires
        0 <= i <= s.len(),
    ensures
        i <= line_end(s, i) <= s.len(),
        forall|j: int| i <= j < line_end(s, i) ==> s[j] != NEWLINE,
        line_end(s, i) < s.len() ==> s[line_end(s, i)] == NEWLINE,
    decreases s.len() - i,
{
    if i < s.len() && s[i] != NEWLINE {
        lemma_line_end_found(s, i + 1);
    }
}

/// Bytes on their way to becoming lines.
pub struct LineBuffer {
    bytes: Vec<u8>,
}

impl View for LineBuffer {
    type V = Seq<u8>;

    closed spec fn view(&self) -> Seq<u8> {
        self.bytes@
    }
}

impl LineBuffer {
    /// A buffer that holds nothing.
    pub fn new() -> (r: Self)
        ensures
            r@ == Seq::<u8>::empty(),
    {
        LineBuffer { bytes: Vec::new() }
    }

    /// Takes a chunk in and hands out the lines that are complete now; what
    /// follows the last line end waits for more.
    pub fn push(&mut self, chunk: &[u8]) -> (r: Vec<Vec<u8>>)
        ensures
            byte_lines(r@) == complete_lines(old(self)@ + chunk@),
            final(self)@ == unfinished(old(self)@ + chunk@),
    {
        let mut all: Vec<u8> = slice_to_vec(self.bytes.as_slice());
        let mut tail: Vec<u8> = slice_to_vec(chunk);
        all.append(&mut tail);
        let ghost whole = all@;
        assert(whole == old(self)@ + chunk@);
        let mut out: Vec<Vec<u8>> = Vec::new();
        let mut start: usize = 0;
        let n: usize = all.len();
        assert(whole.skip(0) =~= whole);
        assert(byte_lines(out@) =~= Seq::<Seq<u8>>::empty());
        loop
            invariant
                n == all@.len(),
                whole == all@,
                start <= n,
                byte_lines(out@) + complete_lines(whole.skip(start as int)) == complete_lines(
                    whole,
                ),
                unfinished(whole.skip(start as int)) == unfinished(whole),
                whole == old(self)@ + chunk@,
            decreases n - start,
        {
            let rest: &[u8] = slice_subrange(all.as_slice(), start, n);
            assert(rest@ == whole.skip(start as int));
            match memchr::memchr(NEWLINE, rest) {
                Some(rel) => {
                    let line: Vec<u8> = slice_to_vec(slice_subrange(rest, 0, rel));
                    let ghost before = byte_lines(out@);
                    let ghost taken = line@;
                    assert(taken =~= rest@.take(rel as int));
                    proof {
                        lemma_line_end(rest@, 0, rel as int);
                    }
                    out.push(line);
                    assert(byte_lines(out@) =~= before.push(taken));
                    start = start + rel + 1;
                    assert(whole.skip(start as int) =~= rest@.skip(rel + 1));
                    assert(before.push(taken) + complete_lines(rest@.skip(rel + 1)) =~= before + (
                    seq![taken] + complete_lines(rest@.skip(rel + 1))));
                },
                None => {
                    proof {
                        lemma_line_end(rest@, 0, rest@.len() as int);
                    }
                    assert(byte_lines(out@) + Seq::<Seq<u8>>::empty() =~= byte_lines(out@));
                    self.bytes = slice_to_vec(rest);
                    return out;
                },
            }
        }
    }
}

/// How bytes are cut into chunks does not matter: the lines that come out of one
/// chunk come out of its two parts, and the same waits for more.
pub proof fn law_chunks_give_the_same_lines(x: Seq<u8>, y: Seq<u8>)
    ensures
        complete_lines(x + y) == complete_lines(x) + complete_lines(unfinished(x) + y),
        unfinished(x + y) == unfinished(unfinished(x) + y),
    decreases x.len(),
{
    lemma_line_end_found(x, 0);
    let i = line_end(x, 0);
    if i < x.len() {
        lemma_line_end(x + y, 0, i);
        assert((x + y).take(i) =~= x.take(i));
        assert((x + y).skip(i + 1) =~= x.skip(i + 1) + y);
        law_chunks_give_the_same_lines(x.skip(i + 1), y);
        let a = seq![x.take(i)];
        let b = complete_lines(x.skip(i + 1));
        let c = complete_lines(unfinished(x) + y);
        assert(a + (b + c) =~= (a + b) + c);
    } else {
        assert(complete_lines(x) + complete_lines(x + y) =~= complete_lines(x + y));
    }
}

/// What waits holds no line end.
pub proof fn law_unfinished_has_no_line_end(x: Seq<u8>)
    ensures
        forall|j: int| 0 <= j < unfinished(x).len() ==> unfinished(x)[j] != NEWLINE,
        complete_lines(unfinished(x)) == Seq::<Seq<u8>>::empty(),
    decreases x.len(),
{
    lemma_line_end_found(x, 0);
    let i = line_end(x, 0);
    if i < x.len() {
        law_unfinished_has_no_line_end(x.skip(i + 1));
    }
}

// ---------------------------------------------------------------------- events

/// `std::str::from_utf8`: the text that the bytes encode, where they are UTF-8.
#[verifier::external_body]
pub(crate) fn utf8_text(bytes: &[u8]) -> (r: Option<&str>)
    ensures
        match r {
            Some(s) => vstd::utf8::valid_utf8(bytes@) && s@ == vstd::utf8::decode_utf8(bytes@),
            None => !vstd::utf8::valid_utf8(bytes@),
        },
{
    match std::str::from_utf8(bytes) {
        Ok(s) => Some(s),
        Err(_) => None,
    }
}

/// The text of a line with no space around it; nothing where it is not UTF-8.
pub open spec fn line_text(line: Seq<u8>) -> Seq<char> {
    if vstd::utf8::valid_utf8(line) {
        text::trimmed(vstd::utf8::decode_utf8(line))
    } else {
        Seq::empty()
    }
}

/// What a line of an event stream carries.
#[derive(Debug)]
pub enum SseEvent {
    /// Nothing of interest.
    Skip,
    /// The end of the answer.
    Done,
    /// A piece of the answer, still to be read.
    Data(String),
}

/// An event as text.
pub enum SseView {
    Skip,
    Done,
    Data(Seq<char>),
}

impl View for SseEvent {
    type V = SseView;

    open spec fn view(&self) -> SseView {
        match self {
            SseEvent::Skip => SseView::Skip,
            SseEvent::Done => SseView::Done,
            SseEvent::Data(s) => SseView::Data(s@),
        }
    }
}

/// The event of a line: `data: [DONE]` ends the answer, `data: ` before anything
/// else carries a piece of it.
pub open spec fn event_of(line: Seq<u8>) -> SseView {
    let s = line_text(line);
    if s == "data: [DONE]"@ {
        SseView::Done
    } else if text::occurs_at(s, "data: "@, 0) {
        SseView::Data(s.skip("data: "@.len() as int))
    } else {
        SseView::Skip
    }
}

/// Reads the event of a line.
pub fn read_event(line: &[u8]) -> (r: SseEvent)
    ensures
        r@ == event_of(line@),
{
    proof {
        reveal_strlit("data: ");
        reveal_strlit("data: [DONE]");
        assert("data: "@.len() == 6);
        assert("data: [DONE]"@.len() == 12);
    }
    match utf8_text(line) {
        Some(t) => {
            let chars = text::chars_of(t);
            let s: &[char] = text::trim(chars.as_slice());
            if text::is_text(s, "data: [DONE]") {
                return SseEvent::Done;
            }
            match text::strip_prefix(s, "data: ") {
                Some(data) => SseEvent::Data(text::string_of(data)),
                None => SseEvent::Skip,
            }
        },
        None => SseEvent::Skip,
    }
}

/// The value that a line of a frame stream spells, if any.
pub open spec fn frame_of(line: Seq<u8>) -> Option<JsonView> {
    match json::json_of(vstd::utf8::encode_utf8(line_text(line))) {
        Ok(v) => if line_text(line).len() > 0 {
            Some(v)
        } else {
            None
        },
        Err(_) => None,
    }
}

/// Reads a line of a stream of JSON values; one that is empty or spells none is
/// passed over.
pub fn read_frame(line: &[u8]) -> (r: Option<Json>)
    ensures
        match r {
            Some(j) => frame_of(line@) == Some(j@),
            None => frame_of(line@) is None,
        },
{
    match utf8_text(line) {
        Some(t) => {
            let chars = text::chars_of(t);
            let s: &[char] = text::trim(chars.as_slice());
            if s.len() == 0 {
                return None;
            }
            let trimmed = text::string_of(s);
            match parse_json(trimmed.as_str().as_bytes()) {
                Ok(j) => Some(j),
                Err(_) => None,
            }
        },
        None => None,
    }
}

// ---------------------------------------------------------------------- frames

/// A frame of an Ollama answer is the one for this content: in a chat it stands
/// in a message of the assistant, else in the response.
pub open spec fn frame_carries(
    f: OllamaStreamFrame,
    model: Seq<char>,
    now: Timestamp,
    content: Seq<char>,
    is_chat: bool,
    done: bool,
) -> bool {
    &&& f.model@ == model
    &&& f.created_at@ == time::text_of_time(now)
    &&& f.done == done
    &&& f.total_duration is None
    &&& is_chat ==> f.response is None && (f.message matches Some(m) && m.role@ == "assistant"@
        && m.content@ == content)
    &&& !is_chat ==> f.message is None && (f.response matches Some(s) && s@ == content)
}

/// The counts of a frame are those of the answer's usage, where it has one.
pub open spec fn frame_counts(f: OllamaStreamFrame, parsed: ChatCompletionResponse) -> bool {
    match parsed.usage {
        Some(u) => f.prompt_eval_count == Some(u.prompt_tokens) && f.eval_count == Some(
            u.completion_tokens,
        ),
        None => f.prompt_eval_count is None && f.eval_count is None,
    }
}

fn frame_for(model: &str, now: Timestamp, content: String, is_chat: bool, done: bool) -> (r:
    OllamaStreamFrame)
    ensures
        frame_carries(r, model@, now, content@, is_chat, done),
        r.prompt_eval_count is None,
        r.eval_count is None,
{
    let (response, message): (Option<String>, Option<ChatMessage>) = if is_chat {
        (None, Some(ChatMessage { role: String::from_str("assistant"), content }))
    } else {
        (Some(content), None)
    };
    OllamaStreamFrame {
        model: String::from_str(model),
        created_at: time::time_text(now),
        response,
        message,
        done,
        total_duration: None,
        prompt_eval_count: None,
        eval_count: None,
    }
}

/// The frame that ends a streamed answer.
pub fn done_frame(model: &str, now: Timestamp, is_chat: bool) -> (r: OllamaStreamFrame)
    ensures
        frame_carries(r, model@, now, Seq::empty(), is_chat, true),
        r.prompt_eval_count is None,
        r.eval_count is None,
{
    frame_for(model, now, String::new(), is_chat, true)
}

/// The text of a streamed piece: the delta of its first choice.
pub open spec fn delta_content(parsed: ChatCompletionResponse) -> Seq<char> {
    if parsed.choices@.len() > 0 && parsed.choices@[0].delta is Some {
        parsed.choices@[0].delta->0.content@
    } else {
        Seq::empty()
    }
}

/// The text of a whole answer: the message of its first choice, else its delta.
pub open spec fn answer_content(parsed: ChatCompletionResponse) -> Seq<char> {
    if parsed.choices@.len() > 0 && parsed.choices@[0].message is Some {
        parsed.choices@[0].message->0.content@
    } else {
        delta_content(parsed)
    }
}

fn counted_frame(frame: OllamaStreamFrame, parsed: &ChatCompletionResponse) -> (r:
    OllamaStreamFrame)
    ensures
        frame_counts(r, *parsed),
        r.model == frame.model,
        r.created_at == frame.created_at,
        r.response == frame.response,
        r.message == frame.message,
        r.done == frame.done,
        r.total_duration == frame.total_duration,
{
    let (prompt, eval): (Option<u32>, Option<u32>) = match &parsed.usage {
        Some(u) => (Some(u.prompt_tokens), Some(u.completion_tokens)),
        None => (None, None),
    };
    OllamaStreamFrame {
        model: frame.model,
        created_at: frame.created_at,
        response: frame.response,
        message: frame.message,
        done: frame.done,
        total_duration: frame.total_duration,
        prompt_eval_count: prompt,
        eval_count: eval,
    }
}

/// The frame of a streamed piece.
pub fn piece_frame(
    parsed: &ChatCompletionResponse,
    model: &str,
    now: Timestamp,
    is_chat: bool,
) -> (r: OllamaStreamFrame)
    ensures
        frame_carries(r, model@, now, delta_content(*parsed), is_chat, false),
        frame_counts(r, *parsed),
{
    let content: String = if parsed.choices.len() > 0 {
        match &parsed.choices[0].delta {
            Some(d) => d.content.clone(),
            None => String::new(),
        }
    } else {
        String::new()
    };
    counted_frame(frame_for(model, now, content, is_chat, false), parsed)
}

/// The one frame of an answer that does not stream.
pub fn single_frame(
    parsed: &ChatCompletionResponse,
    model: &str,
    now: Timestamp,
    is_chat: bool,
) -> (r: OllamaStreamFrame)
    ensures
        frame_carries(r, model@, now, answer_content(*parsed), is_chat, true),
        frame_counts(r, *parsed),
{
    let content: String = if parsed.choices.len() > 0 {
        match &parsed.choices[0].message {
            Some(m) => m.content.clone(),
            None => match &parsed.choices[0].delta {
                Some(d) => d.content.clone(),
                None => String::new(),
            },
        }
    } else {
        String::new()
    };
    counted_frame(frame_for(model, now, content, is_chat, true), parsed)
}

// ---------------------------------------------------------------------- tokens

/// How many words, parted by white space, a text has.
pub open spec fn word_count(s: Seq<char>) -> nat
    decreases s.len(),
{
    if s.len() == 0 {
        0
    } else {
        word_count(s.drop_last()) + if !text::is_space(s.last()) && (s.len() == 1
            || text::is_space(s[s.len() - 2])) {
            1nat
        } else {
            0nat
        }
    }
}

/// Counts the words of a text.
pub fn count_words(s: &str) -> (r: u64)
    ensures
        r == word_count(s@),
{
    let chars = text::chars_of(s);
    let mut i: usize = 0;
    let mut words: u64 = 0;
    let mut in_word: bool = false;
    assert(s@.take(0) =~= Seq::<char>::empty());
    while i < chars.len()
        invariant
            i <= chars@.len(),
            chars@ == s@,
            words == word_count(s@.take(i as int)),
            words <= i,
            in_word == (i > 0 && !text::is_space(s@[i - 1])),
        decreases chars@.len() - i,
    {
        assert(s@.take(i + 1).drop_last() =~= s@.take(i as int));
        let space: bool = text::is_whitespace(chars[i]);
        if !space && !in_word {
            words = words + 1;
        }
        in_word = !space;
        i = i + 1;
    }
    assert(s@.take(i as int) =~= s@);
    words
}

/// The tokens that a streamed answer has been counted for so far.
#[derive(Debug, Clone, Copy, PartialEq, Eq, Structural)]
pub struct Tally {
    generated: u64,
}

impl View for Tally {
    type V = int;

    closed spec fn view(&self) -> int {
        self.generated as int
    }
}

impl Tally {
    /// The tally of an answer of which nothing has come.
    pub fn new() -> (r: Self)
        ensures
            r@ == 0,
    {
        Tally { generated: 0 }
    }
}

/// The text under a part of a choice.
pub open spec fn part_content(choice: JsonView, part: Seq<char>) -> Option<Seq<char>> {
    match json::member(choice, part) {
        Some(p) => json::string_in(json::member(p, "content"@)),
        None => None,
    }
}

/// The text that an event adds to the answer: the delta of its first choice, else
/// the message.
pub open spec fn event_content(v: JsonView) -> Option<Seq<char>> {
    match json::array_in(json::member(v, "choices"@)) {
        Some(a) => if a.len() > 0 {
            match part_content(a[0], "delta"@) {
                Some(s) => Some(s),
                None => part_content(a[0], "message"@),
            }
        } else {
            None
        },
        None => None,
    }
}

/// The count that the usage part of an event gives under a name.
pub open spec fn usage_count(v: JsonView, name: Seq<char>) -> Option<int> {
    match json::member(v, "usage"@) {
        Some(u) => match json::unsigned_in(json::member(u, name)) {
            Some(n) => Some(n as int),
            None => None,
        },
        None => None,
    }
}

/// The tokens that the text of an event stands for: each word is one, and a text
/// without words is one too.
pub open spec fn approximate_tokens(v: JsonView) -> int {
    match event_content(v) {
        Some(s) => if s.len() == 0 {
            0
        } else if word_count(s) == 0 {
            1
        } else {
            word_count(s) as int
        },
        None => 0,
    }
}

/// The tally of an answer after an event. The exact count of the usage part takes
/// the place of what was counted so far; without one, the text of the event is added.
pub open spec fn tally_after(tally: int, v: JsonView) -> int {
    match usage_count(v, "completion_tokens"@) {
        Some(c) => c,
        None => number::wrapped(tally + approximate_tokens(v)),
    }
}

/// The prompt tokens that an event reports.
pub open spec fn prompt_of_event(v: JsonView) -> int {
    match usage_count(v, "prompt_tokens"@) {
        Some(p) => p,
        None => 0,
    }
}

/// The counters after tokens were generated and prompt tokens read. A count of
/// generated tokens that turned out too high is taken back.
pub open spec fn counted(before: Metrics, after: Metrics, generated: int, prompt: int) -> bool {
    &&& after.tokens_generated_total == number::wrapped(before.tokens_generated_total + generated)
    &&& after.prompt_tokens_total == number::wrapped(before.prompt_tokens_total + prompt)
    &&& after == (Metrics {
        tokens_generated_total: after.tokens_generated_total,
        prompt_tokens_total: after.prompt_tokens_total,
        ..before
    })
}

fn content_under<'a>(choice: &'a Json, part: &str) -> (r: Option<&'a String>)
    ensures
        match r {
            Some(s) => part_content(choice@, part@) == Some(s@),
            None => part_content(choice@, part@) is None,
        },
{
    match choice.get(part) {
        Some(p) => p.get_str("content"),
        None => None,
    }
}

fn content_of<'a>(v: &'a Json) -> (r: Option<&'a String>)
    ensures
        match r {
            Some(s) => event_content(v@) == Some(s@),
            None => event_content(v@) is None,
        },
{
    match v.get("choices") {
        Some(c) => match c.as_array() {
            Some(a) => {
                if a.len() > 0 {
                    match content_under(&a[0], "delta") {
                        Some(s) => Some(s),
                        None => content_under(&a[0], "message"),
                    }
                } else {
                    None
                }
            },
            None => None,
        },
        None => None,
    }
}

fn usage_of(v: &Json, name: &str) -> (r: Option<u64>)
    ensures
        match r {
            Some(n) => usage_count(v@, name@) == Some(n as int),
            None => usage_count(v@, name@) is None,
        },
{
    match v.get("usage") {
        Some(u) => u.get_u64(name),
        None => None,
    }
}

fn approximate(v: &Json) -> (r: u64)
    ensures
        r == approximate_tokens(v@),
{
    match content_of(v) {
        Some(s) => {
            let chars = text::chars_of(s.as_str());
            if chars.len() == 0 {
                return 0;
            }
            let n: u64 = count_words(s.as_str());
            if n == 0 {
                1
            } else {
                n
            }
        },
        None => 0,
    }
}

/// Takes an event of an answer into its tally and into the counters.
pub fn count_event(v: &Json, tally: &mut Tally, metrics: &mut Metrics)
    ensures
        final(tally)@ == tally_after(old(tally)@, v@),
        counted(
            *old(metrics),
            *final(metrics),
            final(tally)@ - old(tally)@,
            prompt_of_event(v@),
        ),
{
    let before: u64 = tally.generated;
    let after: u64 = match usage_of(v, "completion_tokens") {
        Some(c) => c,
        None => before.wrapping_add(approximate(v)),
    };
    let prompt: u64 = match usage_of(v, "prompt_tokens") {
        Some(p) => p,
        None => 0,
    };
    tally.generated = after;
    metrics.tokens_generated_total =
    metrics.tokens_generated_total.wrapping_add(after).wrapping_sub(before);
    metrics.prompt_tokens_total = metrics.prompt_tokens_total.wrapping_add(prompt);
}

/// The bytes of `data: `.
pub const DATA_PREFIX: [u8; 6] = [100, 97, 116, 97, 58, 32];

/// The bytes of `[DONE]`.
pub const DONE_MARK: [u8; 6] = [91, 68, 79, 78, 69, 93];

/// The byte of a carriage return.
pub const CARRIAGE_RETURN: u8 = 13;

/// `s` without the carriage returns at its end.
pub open spec fn without_returns(s: Seq<u8>) -> Seq<u8>
    decreases s.len(),
{
    if s.len() > 0 && s.last() == CARRIAGE_RETURN {
        without_returns(s.drop_last())
    } else {
        s
    }
}

/// What a line carries for the token count: the bytes after `data: `, where the
/// line is UTF-8 and not the end of the answer.
pub open spec fn payload_of(line: Seq<u8>) -> Option<Seq<u8>> {
    let s = without_returns(line);
    if vstd::utf8::valid_utf8(line) && s.len() >= 6 && s.take(6) == DATA_PREFIX@ && s.skip(6)
        != DONE_MARK@ {
        Some(s.skip(6))
    } else {
        None
    }
}

/// The event that a line carries, where it carries one that can be read.
pub open spec fn event_of_line(line: Seq<u8>) -> Option<JsonView> {
    match payload_of(line) {
        Some(p) => match json::json_of(p) {
            Ok(v) => Some(v),
            Err(_) => None,
        },
        None => None,
    }
}

/// The tally of an answer after a line.
pub open spec fn tally_after_line(tally: int, line: Seq<u8>) -> int {
    match event_of_line(line) {
        Some(v) => tally_after(tally, v),
        None => tally,
    }
}

/// The prompt tokens that a line reports.
pub open spec fn prompt_of_line(line: Seq<u8>) -> int {
    match event_of_line(line) {
        Some(v) => prompt_of_event(v),
        None => 0,
    }
}

fn trim_returns(s: &[u8]) -> (r: &[u8])
    ensures
        r@ == without_returns(s@),
{
    let mut n: usize = s.len();
    assert(s@.take(n as int) =~= s@);
    while n > 0 && s[n - 1] == CARRIAGE_RETURN
        invariant
            n <= s@.len(),
            without_returns(s@.take(n as int)) == without_returns(s@),
        decreases n,
    {
        assert(s@.take(n as int).drop_last() =~= s@.take(n - 1));
        n = n - 1;
    }
    let r = slice_subrange(s, 0, n);
    assert(r@ =~= s@.take(n as int));
    r
}

fn same_bytes(a: &[u8], b: &[u8]) -> (r: bool)
    ensures
        r == (a@ == b@),
{
    if a.len() != b.len() {
        return false;
    }
    let mut i: usize = 0;
    while i < a.len()
        invariant
            i <= a@.len(),
            a@.len() == b@.len(),
            forall|j: int| 0 <= j < i ==> a@[j] == b@[j],
        decreases a@.len() - i,
    {
        if a[i] != b[i] {
            return false;
        }
        i = i + 1;
    }
    assert(a@ =~= b@);
    true
}

/// Takes a line of an event stream into the tally of its answer and into the
/// counters.
pub fn count_tokens_in_sse_line(line: &[u8], tally: &mut Tally, metrics: &mut Metrics)
    ensures
        final(tally)@ == tally_after_line(old(tally)@, line@),
        counted(
            *old(metrics),
            *final(metrics),
            final(tally)@ - old(tally)@,
            prompt_of_line(line@),
        ),
{
    if utf8_text(line).is_none() {
        return;
    }
    let s = trim_returns(line);
    let n: usize = s.len();
    if n < 6 {
        return;
    }
    let head = slice_subrange(s, 0, 6);
    let payload = slice_subrange(s, 6, n);
    assert(head@ =~= s@.take(6));
    assert(payload@ =~= s@.skip(6));
    if !same_bytes(head, &DATA_PREFIX) || same_bytes(payload, &DONE_MARK) {
        return;
    }
    if let Ok(v) = parse_json(payload) {
        count_event(&v, tally, metrics);
    }
}

/// The tally of an answer after lines.
pub open spec fn tally_after_lines(tally: int, lines: Seq<Seq<u8>>) -> int
    decreases lines.len(),
{
    if lines.len() == 0 {
        tally
    } else {
        tally_after_line(tally_after_lines(tally, lines.drop_last()), lines.last())
    }
}

/// The prompt tokens that lines report, together.
pub open spec fn prompt_of_lines(lines: Seq<Seq<u8>>) -> int
    decreases lines.len(),
{
    if lines.len() == 0 {
        0
    } else {
        prompt_of_lines(lines.drop_last()) + prompt_of_line(lines.last())
    }
}

/// Takes a chunk of an event stream into the tally of its answer and into the
/// counters: the lines that are complete with it.
pub fn count_tokens_in_chunk(
    buffer: &mut LineBuffer,
    chunk: &[u8],
    tally: &mut Tally,
    metrics: &mut Metrics,
)
    ensures
        final(buffer)@ == unfinished(old(buffer)@ + chunk@),
        final(tally)@ == tally_after_lines(
            old(tally)@,
            complete_lines(old(buffer)@ + chunk@),
        ),
        counted(
            *old(metrics),
            *final(metrics),
            final(tally)@ - old(tally)@,
            prompt_of_lines(complete_lines(old(buffer)@ + chunk@)),
        ),
{
    let lines = buffer.push(chunk);
    let ghost all = byte_lines(lines@);
    let ghost start = *metrics;
    let ghost first = tally@;
    let mut i: usize = 0;
    assert(all.take(0) =~= Seq::<Seq<u8>>::empty());
    while i < lines.len()
        invariant
            i <= lines@.len(),
            all == byte_lines(lines@),
            tally@ == tally_after_lines(first, all.take(i as int)),
            counted(start, *metrics, tally@ - first, prompt_of_lines(all.take(i as int))),
        decreases lines@.len() - i,
    {
        assert(all.take(i + 1).drop_last() =~= all.take(i as int));
        assert(all.take(i + 1).last() == lines@[i as int]@);
        let ghost mid = *metrics;
        let ghost so_far = tally@;
        count_tokens_in_sse_line(lines[i].as_slice(), tally, metrics);
        proof {
            law_counts_add_up(
                start,
                mid,
                *metrics,
                so_far - first,
                prompt_of_lines(all.take(i as int)),
                tally@ - so_far,
                prompt_of_line(lines@[i as int]@),
            );
        }
        i = i + 1;
    }
    assert(all.take(i as int) =~= all);
}

/// What is counted one after the other adds up: at the end of an answer the counters
/// have gone up by its tally.
pub proof fn law_counts_add_up(
    start: Metrics,
    mid: Metrics,
    end: Metrics,
    generated: int,
    prompt: int,
    more_generated: int,
    more_prompt: int,
)
    requires
        counted(start, mid, generated, prompt),
        counted(mid, end, more_generated, more_prompt),
    ensures
        counted(start, end, generated + more_generated, prompt + more_prompt),
{
}

/// An exact count takes the place of everything that the answer was counted for
/// before, whatever that was.
pub proof fn law_exact_count_replaces_the_approximation(tally: int, v: JsonView, exact: int)
    requires
        usage_count(v, "completion_tokens"@) == Some(exact),
    ensures
        tally_after(tally, v) == exact,
{
}

/// The tokens of an answer do not depend on how it is cut into chunks.
pub proof fn law_chunks_give_the_same_tokens(tally: int, x: Seq<u8>, y: Seq<u8>)
    ensures
        ({
            let whole = complete_lines(x + y);
            let first = complete_lines(x);
            let second = complete_lines(unfinished(x) + y);
            &&& tally_after_lines(tally, whole) == tally_after_lines(
                tally_after_lines(tally, first),
                second,
            )
            &&& prompt_of_lines(whole) == prompt_of_lines(first) + prompt_of_lines(second)
        }),
{
    law_chunks_give_the_same_lines(x, y);
    lemma_tokens_of_both(tally, complete_lines(x), complete_lines(unfinished(x) + y));
}

proof fn lemma_tokens_of_both(tally: int, a: Seq<Seq<u8>>, b: Seq<Seq<u8>>)
    ensures
        tally_after_lines(tally, a + b) == tally_after_lines(tally_after_lines(tally, a), b),
        prompt_of_lines(a + b) == prompt_of_lines(a) + prompt_of_lines(b),
    decreases b.len(),
{
    if b.len() == 0 {
        assert(a + b =~= a);
    } else {
        assert((a + b).drop_last() =~= a + b.drop_last());
        lemma_tokens_of_both(tally, a, b.drop_last());
    }
}

} // verus!

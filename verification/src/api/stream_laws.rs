//! What holds of answers as they stream from a model server to a client.
use crate::api::json;
use crate::api::json::{JsonNumber, JsonView};
use crate::api::stream;
use crate::api::stream::SseView;
use crate::api::types::{ChatCompletionResponse, OllamaStreamFrame};
use crate::text;
use crate::text_laws;
use crate::time::Timestamp;
use vstd::prelude::*;

verus! {

// ------------------------------------------------------------------------- frames

/// The text that a frame shows to the client: of its message in a chat, else of its
/// response.
pub open spec fn shown_by(f: OllamaStreamFrame) -> Seq<char> {
    match (f.message, f.response) {
        (Some(m), _) => m.content@,
        (None, Some(s)) => s@,
        (None, None) => Seq::empty(),
    }
}

/// The frame of a piece shows the client exactly the text of the piece's first choice,
/// whether it is the last frame or not; a chat has it as the assistant's message, a
/// generation as its response. A piece without a choice, or whose first choice brings
/// nothing, shows nothing.
pub proof fn law_frame_shows_the_piece(
    f: OllamaStreamFrame,
    piece: ChatCompletionResponse,
    model: Seq<char>,
    now: Timestamp,
    is_chat: bool,
    done: bool,
)
    requires
        stream::frame_carries(f, model, now, stream::delta_content(piece), is_chat, done),
    ensures
        f.model@ == model,
        f.done == done,
        piece.choices@.len() > 0 ==> (piece.choices@[0].delta matches Some(d) ==> shown_by(f)
            == d.content@),
        piece.choices@.len() == 0 || piece.choices@[0].delta is None ==> shown_by(f).len() == 0,
        is_chat ==> f.response is None && (f.message matches Some(m) && m.role@ == "assistant"@),
        !is_chat ==> f.message is None && f.response is Some,
{
}

/// The one frame of an answer that does not stream shows the message of its first
/// choice; where that has none, what its delta brings.
pub proof fn law_single_frame_shows_the_answer(
    f: OllamaStreamFrame,
    answer: ChatCompletionResponse,
    model: Seq<char>,
    now: Timestamp,
    is_chat: bool,
    done: bool,
)
    requires
        stream::frame_carries(f, model, now, stream::answer_content(answer), is_chat, done),
        answer.choices@.len() > 0,
    ensures
        answer.choices@[0].message matches Some(m) ==> shown_by(f) == m.content@,
        answer.choices@[0].message is None ==> (answer.choices@[0].delta matches Some(d)
            ==> shown_by(f) == d.content@),
        f.done == done,
        is_chat ==> f.response is None && (f.message matches Some(m) && m.role@ == "assistant"@),
        !is_chat ==> f.message is None && f.response is Some,
{
}

/// Everything that frames show, one after the other.
pub open spec fn all_shown(frames: Seq<OllamaStreamFrame>) -> Seq<char>
    decreases frames.len(),
{
    if frames.len() == 0 {
        Seq::empty()
    } else {
        all_shown(frames.drop_last()) + shown_by(frames.last())
    }
}

/// Everything that pieces bring, one after the other.
pub open spec fn all_brought(pieces: Seq<ChatCompletionResponse>) -> Seq<char>
    decreases pieces.len(),
{
    if pieces.len() == 0 {
        Seq::empty()
    } else {
        let last = pieces.last();
        all_brought(pieces.drop_last()) + if last.choices@.len() > 0
            && last.choices@[0].delta is Some {
            last.choices@[0].delta->0.content@
        } else {
            Seq::empty()
        }
    }
}

/// An answer arrives whole: what the frames of a stream show, put together, is what its
/// pieces bring, put together.
pub proof fn law_streamed_answer_arrives_whole(
    frames: Seq<OllamaStreamFrame>,
    pieces: Seq<ChatCompletionResponse>,
    model: Seq<char>,
    times: Seq<Timestamp>,
    is_chat: bool,
    done: Seq<bool>,
)
    requires
        frames.len() == pieces.len(),
        frames.len() == times.len(),
        frames.len() == done.len(),
        forall|i: int|
            0 <= i < frames.len() ==> stream::frame_carries(
                #[trigger] frames[i],
                model,
                times[i],
                stream::delta_content(pieces[i]),
                is_chat,
                done[i],
            ),
    ensures
        all_shown(frames) == all_brought(pieces),
    decreases frames.len(),
{
    if frames.len() > 0 {
        let n = frames.len() - 1;
        assert forall|i: int| 0 <= i < n implies stream::frame_carries(
            #[trigger] frames.drop_last()[i],
            model,
            times.drop_last()[i],
            stream::delta_content(pieces.drop_last()[i]),
            is_chat,
            done.drop_last()[i],
        ) by {
            assert(frames[i] == frames.drop_last()[i]);
        }
        law_streamed_answer_arrives_whole(
            frames.drop_last(),
            pieces.drop_last(),
            model,
            times.drop_last(),
            is_chat,
            done.drop_last(),
        );
        law_frame_shows_the_piece(frames[n], pieces[n], model, times[n], is_chat, done[n]);
        if pieces[n].choices@.len() == 0 || pieces[n].choices@[0].delta is None {
            assert(shown_by(frames[n]) =~= Seq::<char>::empty());
        }
    }
}

/// A frame tells the tokens of the prompt and of the answer as the model server counted
/// them, each in its own place.
pub proof fn law_frame_tells_the_counts(f: OllamaStreamFrame, parsed: ChatCompletionResponse)
    requires
        stream::frame_counts(f, parsed),
    ensures
        parsed.usage matches Some(u) ==> f.prompt_eval_count == Some(u.prompt_tokens)
            && f.eval_count == Some(u.completion_tokens),
        parsed.usage is None ==> f.prompt_eval_count is None && f.eval_count is None,
{
}

// ------------------------------------------------------------------------- events

/// A line that carries data is read as that data, with nothing lost of it; `[DONE]` is
/// the end; a line that does not begin so is passed over.
pub proof fn law_events_are_read(data: Seq<char>, other: Seq<char>)
    requires
        data.len() > 0,
        text_laws::is_tight(data),
        text_laws::is_tight(other),
        !"data: "@.is_prefix_of(other),
    ensures
        data != "[DONE]"@ ==> stream::event_of(vstd::utf8::encode_utf8("data: "@ + data))
            == SseView::Data(data),
        stream::event_of(vstd::utf8::encode_utf8("data: [DONE]"@)) == SseView::Done,
        stream::event_of(vstd::utf8::encode_utf8(other)) == SseView::Skip,
        stream::event_of(Seq::empty()) == SseView::Skip,
{
    broadcast use {vstd::utf8::encode_utf8_valid_utf8, vstd::utf8::encode_utf8_decode_utf8};

    reveal_strlit("data: ");
    reveal_strlit("[DONE]");
    reveal_strlit("data: [DONE]");
    let s = "data: "@ + data;
    assert(s[0] == 'd');
    assert(s.last() == data.last());
    text_laws::lemma_tight_is_trimmed(s);
    text_laws::lemma_tight_is_trimmed("data: [DONE]"@);
    text_laws::lemma_tight_is_trimmed(other);
    assert(s.subrange(0, 6) =~= "data: "@);
    assert(s.skip(6) =~= data);
    if s == "data: [DONE]"@ {
        assert("data: [DONE]"@.skip(6) =~= "[DONE]"@);
    }
    if text::occurs_at(other, "data: "@, 0) {
        assert("data: "@.is_prefix_of(other));
    }
    assert("data: [DONE]"@.subrange(0, 6) =~= "data: "@);
    if other == "data: [DONE]"@ {
        assert("data: "@.is_prefix_of(other));
    }
    let none = Seq::<char>::empty();
    text_laws::lemma_tight_is_trimmed(none);
    assert(vstd::utf8::encode_utf8(none) =~= Seq::<u8>::empty());
}

/// Lines put back together, each with its end.
pub open spec fn rejoined(lines: Seq<Seq<u8>>) -> Seq<u8>
    decreases lines.len(),
{
    if lines.len() == 0 {
        Seq::empty()
    } else {
        lines[0].push(10u8) + rejoined(lines.skip(1))
    }
}

/// No byte is lost, added or moved between chunks and lines: the lines that came out,
/// each with its end, and what still waits, put together, are the bytes that went in.
/// No line holds an end within it.
pub proof fn law_lines_hold_every_byte(s: Seq<u8>)
    ensures
        rejoined(stream::complete_lines(s)) + stream::unfinished(s) == s,
        forall|i: int, j: int|
            0 <= i < stream::complete_lines(s).len() && 0 <= j < stream::complete_lines(s)[i].len()
                ==> #[trigger] stream::complete_lines(s)[i][j] != 10,
        forall|j: int| 0 <= j < stream::unfinished(s).len() ==> stream::unfinished(s)[j] != 10,
    decreases s.len(),
{
    stream::law_unfinished_has_no_line_end(s);
    let i = stream::line_end(s, 0);
    lemma_first_end(s, 0);
    if 0 <= i < s.len() {
        let rest = s.skip(i + 1);
        law_lines_hold_every_byte(rest);
        let lines = stream::complete_lines(s);
        let more = stream::complete_lines(rest);
        assert(lines[0] =~= s.take(i));
        assert(lines.skip(1) =~= more);
        assert(s.take(i).push(10u8) + (rejoined(more) + stream::unfinished(rest)) =~= s);
        assert(rejoined(lines) + stream::unfinished(s) =~= s.take(i).push(10u8) + (rejoined(more)
            + stream::unfinished(rest)));
        assert forall|a: int, b: int|
            0 <= a < lines.len() && 0 <= b < lines[a].len() implies #[trigger] lines[a][b] != 10 by {
            if a > 0 {
                assert(lines[a] == more[a - 1]);
                assert(more[a - 1][b] != 10);
            }
        }
    } else {
        assert(rejoined(stream::complete_lines(s)) + stream::unfinished(s) =~= s);
    }
}

proof fn lemma_first_end(s: Seq<u8>, i: int)
    requires
        0 <= i <= s.len(),
    ensures
        i <= stream::line_end(s, i) <= s.len(),
        forall|j: int| i <= j < stream::line_end(s, i) ==> s[j] != 10,
        stream::line_end(s, i) < s.len() ==> s[stream::line_end(s, i)] == 10,
    decreases s.len() - i,
{
    if i < s.len() && s[i] != 10 {
        lemma_first_end(s, i + 1);
    }
}

// ------------------------------------------------------------------------- tokens

/// Words are counted by the white space between them: a run without white space is one
/// word, white space alone is none, and the words of two texts with white space between
/// them add up.
pub proof fn law_words_are_parted_by_space(a: Seq<char>, space: char, b: Seq<char>)
    requires
        text::is_space(space),
    ensures
        stream::word_count(Seq::empty()) == 0,
        stream::word_count(a.push(space) + b) == stream::word_count(a) + stream::word_count(b),
        a.len() > 0 && (forall|i: int| 0 <= i < a.len() ==> !text::is_space(#[trigger] a[i]))
            ==> stream::word_count(a) == 1,
        text_laws::all_space(a) ==> stream::word_count(a) == 0,
    decreases b.len(),
{
    if b.len() == 0 {
        assert(a.push(space) + b =~= a.push(space));
        assert(a.push(space).drop_last() =~= a);
    } else {
        let s = a.push(space) + b;
        let front = b.drop_last();
        law_words_are_parted_by_space(a, space, front);
        assert(s.drop_last() =~= a.push(space) + front);
        assert(s.last() == b.last());
        if b.len() == 1 {
            assert(s[s.len() - 2] == space);
        } else {
            assert(s[s.len() - 2] == b[b.len() - 2]);
        }
    }
    if a.len() > 0 && (forall|i: int| 0 <= i < a.len() ==> !text::is_space(#[trigger] a[i])) {
        lemma_one_word(a);
    }
    if text_laws::all_space(a) {
        lemma_no_word(a);
    }
}

proof fn lemma_one_word(a: Seq<char>)
    requires
        a.len() > 0,
        forall|i: int| 0 <= i < a.len() ==> !text::is_space(#[trigger] a[i]),
    ensures
        stream::word_count(a) == 1,
    decreases a.len(),
{
    let front = a.drop_last();
    assert(!text::is_space(a[a.len() - 1]));
    if a.len() > 1 {
        assert forall|i: int| 0 <= i < front.len() implies !text::is_space(#[trigger] front[i]) by {
            assert(!text::is_space(a[i]));
        }
        lemma_one_word(front);
        assert(!text::is_space(a[a.len() - 2]));
    } else {
        assert(front =~= Seq::<char>::empty());
        assert(stream::word_count(front) == 0);
    }
}

proof fn lemma_no_word(a: Seq<char>)
    requires
        text_laws::all_space(a),
    ensures
        stream::word_count(a) == 0,
    decreases a.len(),
{
    if a.len() > 0 {
        let front = a.drop_last();
        assert forall|i: int| 0 <= i < front.len() implies text::is_space(#[trigger] front[i]) by {
            assert(text::is_space(a[i]));
        }
        lemma_no_word(front);
        assert(text::is_space(a[a.len() - 1]));
    }
}

/// An event that brings text counts for the words of that text, and for one where it has
/// none; it is added to what the answer was counted for before.
pub proof fn law_text_is_counted_by_words(
    event: Seq<(Seq<char>, JsonView)>,
    choice: Seq<(Seq<char>, JsonView)>,
    delta: Seq<(Seq<char>, JsonView)>,
    others: Seq<JsonView>,
    content: Seq<char>,
    tally: int,
)
    requires
        json::lookup(event, "choices"@) == Some(
            JsonView::Array(seq![JsonView::Object(choice)] + others),
        ),
        json::lookup(choice, "delta"@) == Some(JsonView::Object(delta)),
        json::lookup(delta, "content"@) == Some(JsonView::Str(content)),
        json::lookup(event, "usage"@) is None,
        content.len() > 0,
        0 <= tally,
        tally + content.len() < 0x1_0000_0000_0000_0000,
    ensures
        ({
            let after = stream::tally_after(tally, JsonView::Object(event));
            &&& stream::word_count(content) > 0 ==> after == tally + stream::word_count(content)
            &&& stream::word_count(content) == 0 ==> after == tally + 1
            &&& stream::prompt_of_event(JsonView::Object(event)) == 0
        }),
{
    let a = seq![JsonView::Object(choice)] + others;
    assert(a[0] == JsonView::Object(choice));
    lemma_no_more_words_than_chars(content);
}

proof fn lemma_no_more_words_than_chars(s: Seq<char>)
    ensures
        stream::word_count(s) <= s.len(),
    decreases s.len(),
{
    if s.len() > 0 {
        lemma_no_more_words_than_chars(s.drop_last());
    }
}

/// An event with the counts of the model server sets the answer's tally to that count,
/// whatever text came before, and reports the prompt's tokens; one with neither text nor
/// counts changes nothing.
pub proof fn law_usage_is_taken_as_it_is(
    event: Seq<(Seq<char>, JsonView)>,
    usage: Seq<(Seq<char>, JsonView)>,
    completion: u64,
    prompt: u64,
    tally: int,
)
    requires
        0 <= tally < 0x1_0000_0000_0000_0000,
    ensures
        json::lookup(event, "usage"@) == Some(JsonView::Object(usage)) ==> {
            &&& json::lookup(usage, "completion_tokens"@) == Some(
                JsonView::Number(JsonNumber::Unsigned(completion)),
            ) ==> stream::tally_after(tally, JsonView::Object(event)) == completion
            &&& json::lookup(usage, "prompt_tokens"@) == Some(
                JsonView::Number(JsonNumber::Unsigned(prompt)),
            ) ==> stream::prompt_of_event(JsonView::Object(event)) == prompt
        },
        stream::tally_after(tally, JsonView::Object(Seq::empty())) == tally,
        stream::prompt_of_event(JsonView::Object(Seq::empty())) == 0,
{
}

/// The counters go up by what is counted, and no other counter changes.
pub proof fn law_counting_changes_two_counters(
    before: crate::api::metrics::Metrics,
    after: crate::api::metrics::Metrics,
    generated: int,
    prompt: int,
)
    requires
        stream::counted(before, after, generated, prompt),
        0 <= before.tokens_generated_total + generated <= u64::MAX,
        0 <= before.prompt_tokens_total + prompt <= u64::MAX,
    ensures
        after.tokens_generated_total == before.tokens_generated_total + generated,
        after.prompt_tokens_total == before.prompt_tokens_total + prompt,
        after.requests_total == before.requests_total,
        after.errors_total == before.errors_total,
        after.bytes_proxied_total == before.bytes_proxied_total,
        after.chat_requests_total == before.chat_requests_total,
{
}

/// A line of an event stream carries what stands behind `data: `, with or without a
/// carriage return at its end; the end mark and any other line carry nothing.
pub proof fn law_line_carries_what_stands_behind_data(data: Seq<u8>, other: Seq<u8>)
    requires
        vstd::utf8::valid_utf8(seq![100u8, 97, 116, 97, 58, 32] + data),
        data.len() > 0,
        data.last() != 13,
        other.len() < 6 || other.take(6) != seq![100u8, 97, 116, 97, 58, 32],
        other.len() > 0 ==> other.last() != 13,
    ensures
        ({
            let lead = seq![100u8, 97, 116, 97, 58, 32];
            let end = seq![91u8, 68, 79, 78, 69, 93];
            &&& data != end ==> stream::payload_of(lead + data) == Some(data)
            &&& data == end ==> stream::payload_of(lead + data) is None
            &&& data != end && vstd::utf8::valid_utf8((lead + data).push(13u8))
                ==> stream::payload_of((lead + data).push(13u8)) == Some(data)
            &&& stream::payload_of(other) is None
        }),
{
    let lead = seq![100u8, 97, 116, 97, 58, 32];
    let end = seq![91u8, 68, 79, 78, 69, 93];
    let s = lead + data;
    assert(stream::DATA_PREFIX@ =~= lead);
    assert(stream::DONE_MARK@ =~= end);
    assert(s.last() == data.last());
    assert(s.take(6) =~= lead);
    assert(s.skip(6) =~= data);
    assert(s.push(13u8).drop_last() =~= s);
    reveal_with_fuel(stream::without_returns, 3);
}

/// A line of a frame stream is read as the value it spells; a blank line, and one that
/// spells none, are passed over.
pub proof fn law_frames_are_read(line: Seq<char>, value: JsonView, reason: Seq<char>)
    requires
        text_laws::is_tight(line),
        line.len() > 0,
    ensures
        json::json_of(vstd::utf8::encode_utf8(line)) == Ok::<JsonView, Seq<char>>(value)
            ==> stream::frame_of(vstd::utf8::encode_utf8(line)) == Some(value),
        json::json_of(vstd::utf8::encode_utf8(line)) == Err::<JsonView, Seq<char>>(reason)
            ==> stream::frame_of(vstd::utf8::encode_utf8(line)) is None,
{
    vstd::utf8::encode_utf8_valid_utf8(line);
    vstd::utf8::encode_utf8_decode_utf8(line);
    text_laws::lemma_tight_is_trimmed(line);
}

} // verus!

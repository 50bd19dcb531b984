//! Request bodies on their way to a model server: what a Modelfile and the
//! caller's options make of them.
use crate::api::json::{
    copy_json, default_member, find_member, set_member, str_json, Json, JsonNumber, JsonView,
};
use crate::api::json;
use crate::api::types::{ChatMessage, MessageView};
use crate::number;
use crate::registry::modelfile::{Modelfile, ModelfileView};
use crate::text;
use vstd::prelude::*;
use vstd::slice::slice_subrange;
use vstd::string::StringExecFns;

verus! {

broadcast use {vstd::string::group_string_axioms, crate::api::json::lemma_json_view};

// ------------------------------------------------------------------ parameters

/// `s` without the double quotes it begins and ends with.
pub open spec fn without_quotes(s: Seq<char>) -> Seq<char>
    decreases s.len(),
{
    if s.len() > 0 && s[0] == '"' {
        without_quotes(s.skip(1))
    } else if s.len() > 0 && s.last() == '"' {
        without_quotes(s.drop_last())
    } else {
        s
    }
}

/// The value of a Modelfile parameter: an integer, else a number, else a truth
/// value, else a text. `float` is the bit pattern of the finite float that the
/// text stands for, if it stands for one.
pub open spec fn parameter_value(raw: Seq<char>, float: Option<u64>) -> JsonView {
    let s = text::trimmed(raw);
    match number::signed_of(s) {
        Some(n) => json::signed_view(n),
        None => match float {
            Some(bits) => JsonView::Number(JsonNumber::Float(bits)),
            None => if s == "true"@ {
                JsonView::Bool(true)
            } else if s == "false"@ {
                JsonView::Bool(false)
            } else {
                JsonView::Str(without_quotes(s))
            },
        },
    }
}

fn strip_double_quotes(s: &[char]) -> (r: &[char])
    ensures
        r@ == without_quotes(s@),
    decreases s@.len(),
{
    let n: usize = s.len();
    if n > 0 && s[0] == '"' {
        let rest: &[char] = slice_subrange(s, 1, n);
        assert(rest@ == s@.skip(1));
        strip_double_quotes(rest)
    } else if n > 0 && s[n - 1] == '"' {
        let rest: &[char] = slice_subrange(s, 0, n - 1);
        assert(rest@ == s@.drop_last());
        strip_double_quotes(rest)
    } else {
        s
    }
}

/// Reads the value of a Modelfile parameter. `float` is the bit pattern of the
/// finite float that the text stands for, if it stands for one.
pub fn parse_modelfile_value(raw: &str, float: Option<u64>) -> (r: Json)
    ensures
        r@ == parameter_value(raw@, float),
{
    let chars = text::chars_of(raw);
    let s: &[char] = text::trim(chars.as_slice());
    match number::parse_signed(s) {
        Some(n) => json::signed_json(n),
        None => match float {
            Some(bits) => Json::Number(JsonNumber::Float(bits)),
            None => {
                if text::is_text(s, "true") {
                    Json::Bool(true)
                } else if text::is_text(s, "false") {
                    Json::Bool(false)
                } else {
                    Json::Str(text::string_of(strip_double_quotes(s)))
                }
            },
        },
    }
}

/// The name under which a parameter goes to the model server.
pub open spec fn upstream_name(key: Seq<char>) -> Seq<char> {
    if key == "num_predict"@ {
        "max_tokens"@
    } else {
        key
    }
}

/// The members with one stop text more.
pub open spec fn stop_added(
    members: Seq<(Seq<char>, JsonView)>,
    raw: Seq<char>,
) -> Seq<(Seq<char>, JsonView)> {
    let stop = JsonView::Str(without_quotes(raw));
    match json::lookup(members, "stop"@) {
        Some(JsonView::Array(a)) => json::member_set(
            members,
            "stop"@,
            JsonView::Array(a.push(stop)),
        ),
        Some(_) => members,
        None => members.push(("stop"@, JsonView::Array(seq![stop]))),
    }
}

/// The members with one parameter filled in: where the name is there it stays.
/// Stop texts gather in a list, unless the request came with its own.
pub open spec fn parameter_applied(
    members: Seq<(Seq<char>, JsonView)>,
    own_stop: bool,
    key: Seq<char>,
    raw: Seq<char>,
    float: Option<u64>,
) -> Seq<(Seq<char>, JsonView)> {
    if key == "stop"@ {
        if own_stop {
            members
        } else {
            stop_added(members, raw)
        }
    } else {
        json::member_defaulted(members, upstream_name(key), parameter_value(raw, float))
    }
}

/// The members with the first `n` parameters filled in, in order.
pub open spec fn parameters_applied(
    members: Seq<(Seq<char>, JsonView)>,
    parameters: Seq<(Seq<char>, Seq<char>)>,
    floats: Seq<Option<u64>>,
    n: nat,
) -> Seq<(Seq<char>, JsonView)>
    decreases n,
{
    if n == 0 {
        members
    } else {
        parameter_applied(
            parameters_applied(members, parameters, floats, (n - 1) as nat),
            json::lookup(members, "stop"@) is Some,
            parameters[n - 1].0,
            parameters[n - 1].1,
            floats[n - 1],
        )
    }
}

fn add_stop(members: &mut Vec<(String, Json)>, raw: &str)
    ensures
        json::member_views(final(members)@) == stop_added(json::member_views(old(members)@), raw@),
{
    let ghost before = json::member_views(members@);
    let chars = text::chars_of(raw);
    let stop = Json::Str(text::string_of(strip_double_quotes(chars.as_slice())));
    let ghost stop_view = stop@;
    match find_member(members.as_slice(), "stop") {
        Some(i) => {
            let extended: Option<Vec<Json>> = match &members[i].1 {
                Json::Array(a) => {
                    let copy = copy_json(&members[i].1);
                    match copy {
                        Json::Array(mut b) => {
                            let ghost kept = json::element_views(b@);
                            b.push(stop);
                            assert(json::element_views(b@) =~= kept.push(stop_view));
                            Some(b)
                        },
                        _ => None,
                    }
                },
                _ => None,
            };
            match extended {
                Some(b) => {
                    set_member(members, "stop", Json::Array(b));
                },
                None => {},
            }
        },
        None => {
            let mut a: Vec<Json> = Vec::new();
            a.push(stop);
            assert(json::element_views(a@) =~= seq![stop_view]);
            let list = Json::Array(a);
            let ghost list_view = list@;
            members.push((String::from_str("stop"), list));
            assert(json::member_views(members@) =~= before.push(("stop"@, list_view)));
        },
    }
}

/// Fills a Modelfile's parameters into a request: only where the request does not
/// set them. `floats` holds, for each parameter, the bit pattern of the finite
/// float that its text stands for, if it stands for one.
pub fn apply_modelfile_parameters(
    members: &mut Vec<(String, Json)>,
    mf: &Modelfile,
    floats: &[Option<u64>],
)
    requires
        floats@.len() == mf@.parameters.len(),
    ensures
        json::member_views(final(members)@) == parameters_applied(
            json::member_views(old(members)@),
            mf@.parameters,
            floats@,
            mf@.parameters.len(),
        ),
{
    let ghost before = json::member_views(members@);
    let own_stop: bool = find_member(members.as_slice(), "stop").is_some();
    let mut i: usize = 0;
    while i < mf.parameters.len()
        invariant
            i <= mf.parameters@.len(),
            floats@.len() == mf.parameters@.len(),
            mf@.parameters.len() == mf.parameters@.len(),
            own_stop == json::lookup(before, "stop"@) is Some,
            json::member_views(members@) == parameters_applied(
                before,
                mf@.parameters,
                floats@,
                i as nat,
            ),
        decreases mf.parameters@.len() - i,
    {
        let p = &mf.parameters[i];
        assert(mf@.parameters[i as int] == (p.0@, p.1@));
        if text::same_text(p.0.as_str(), "stop") {
            if !own_stop {
                add_stop(members, p.1.as_str());
            }
        } else {
            let value = parse_modelfile_value(p.1.as_str(), floats[i]);
            if text::same_text(p.0.as_str(), "num_predict") {
                default_member(members, "max_tokens", value);
            } else {
                default_member(members, p.0.as_str(), value);
            }
        }
        i = i + 1;
    }
}

// -------------------------------------------------------------------- messages

/// A text where an absent one and null count as empty; anything else but a text
/// is refused.
pub open spec fn text_or_null(v: Option<JsonView>) -> Option<Seq<char>> {
    match v {
        None => Some(Seq::empty()),
        Some(JsonView::Null) => Some(Seq::empty()),
        Some(JsonView::Str(s)) => Some(s),
        Some(_) => None,
    }
}

/// Reads a text where an absent one and null count as empty.
pub fn string_or_null(v: Option<&Json>) -> (r: Option<String>)
    ensures
        match r {
            Some(s) => text_or_null(json::view_option(v)) == Some(s@),
            None => text_or_null(json::view_option(v)) is None,
        },
{
    match v {
        None => Some(String::new()),
        Some(j) => match j {
            Json::Null => Some(String::new()),
            Json::Str(s) => Some(s.clone()),
            _ => None,
        },
    }
}

/// The chat turn that a value stands for: an object with a role and a content, or
/// a list of the two.
pub open spec fn message_of(v: JsonView) -> Option<MessageView> {
    let (role, content) = match v {
        JsonView::Object(m) => (
            text_or_null(json::lookup(m, "role"@)),
            text_or_null(json::lookup(m, "content"@)),
        ),
        JsonView::Array(a) => if a.len() > 2 {
            (None, None)
        } else {
            (
                text_or_null(
                    if a.len() > 0 {
                        Some(a[0])
                    } else {
                        None
                    },
                ),
                text_or_null(
                    if a.len() > 1 {
                        Some(a[1])
                    } else {
                        None
                    },
                ),
            )
        },
        _ => (None, None),
    };
    match (role, content) {
        (Some(r), Some(c)) => Some(MessageView { role: r, content: c }),
        _ => None,
    }
}

/// The chat turns that values stand for, where each stands for one.
pub open spec fn messages_of(a: Seq<JsonView>) -> Option<Seq<MessageView>>
    decreases a.len(),
{
    if a.len() == 0 {
        Some(Seq::empty())
    } else {
        match (messages_of(a.drop_last()), message_of(a.last())) {
            (Some(s), Some(m)) => Some(s.push(m)),
            _ => None,
        }
    }
}

/// A chat turn as a value.
pub open spec fn message_value(m: MessageView) -> JsonView {
    JsonView::Object(
        seq![("role"@, JsonView::Str(m.role)), ("content"@, JsonView::Str(m.content))],
    )
}

/// Reads a chat turn.
pub fn read_message(v: &Json) -> (r: Option<ChatMessage>)
    ensures
        match r {
            Some(m) => message_of(v@) == Some(m@),
            None => message_of(v@) is None,
        },
{
    let (role, content): (Option<String>, Option<String>) = match v {
        Json::Object(_) => (string_or_null(v.get("role")), string_or_null(v.get("content"))),
        Json::Array(a) => {
            assert(v@ == JsonView::Array(json::element_views(a@)));
            if a.len() > 2 {
                (None, None)
            } else {
                let first: Option<&Json> = if a.len() > 0 {
                    Some(&a[0])
                } else {
                    None
                };
                let second: Option<&Json> = if a.len() > 1 {
                    Some(&a[1])
                } else {
                    None
                };
                (string_or_null(first), string_or_null(second))
            }
        },
        _ => (None, None),
    };
    match role {
        Some(role) => match content {
            Some(content) => Some(ChatMessage { role, content }),
            None => None,
        },
        None => None,
    }
}

proof fn lemma_messages_none(a: Seq<JsonView>, i: int)
    requires
        0 <= i < a.len(),
        message_of(a[i]) is None,
    ensures
        messages_of(a) is None,
    decreases a.len(),
{
    if i < a.len() - 1 {
        assert(a.drop_last()[i] == a[i]);
        lemma_messages_none(a.drop_last(), i);
    }
}

/// Reads chat turns; one that cannot be read spoils them all.
pub fn read_messages(a: &[Json]) -> (r: Option<Vec<ChatMessage>>)
    ensures
        match r {
            Some(m) => messages_of(json::element_views(a@)) == Some(
                crate::api::types::message_texts(m@),
            ),
            None => messages_of(json::element_views(a@)) is None,
        },
{
    let ghost all = json::element_views(a@);
    let mut out: Vec<ChatMessage> = Vec::new();
    assert(crate::api::types::message_texts(out@) =~= Seq::<MessageView>::empty());
    assert(all.take(0) =~= Seq::<JsonView>::empty());
    let mut i: usize = 0;
    while i < a.len()
        invariant
            i <= a@.len(),
            all == json::element_views(a@),
            messages_of(all.take(i as int)) == Some(crate::api::types::message_texts(out@)),
        decreases a@.len() - i,
    {
        assert(all.take(i + 1).drop_last() =~= all.take(i as int));
        assert(all[i as int] == a@[i as int]@);
        let ghost before = crate::api::types::message_texts(out@);
        match read_message(&a[i]) {
            Some(m) => {
                let ghost v = m@;
                out.push(m);
                assert(crate::api::types::message_texts(out@) =~= before.push(v));
            },
            None => {
                proof {
                    lemma_messages_none(all, i as int);
                }
                return None;
            },
        }
        i = i + 1;
    }
    assert(all.take(i as int) =~= all);
    Some(out)
}

/// Writes chat turns.
pub fn messages_json(messages: &[ChatMessage]) -> (r: Json)
    ensures
        r@ == JsonView::Array(
            crate::api::types::message_texts(messages@).map_values(
                |m: MessageView| message_value(m),
            ),
        ),
{
    let ghost all = crate::api::types::message_texts(messages@).map_values(
        |m: MessageView| message_value(m),
    );
    let mut out: Vec<Json> = Vec::new();
    assert(json::element_views(out@) =~= all.take(0));
    let mut i: usize = 0;
    while i < messages.len()
        invariant
            i <= messages@.len(),
            all == crate::api::types::message_texts(messages@).map_values(
                |m: MessageView| message_value(m),
            ),
            json::element_views(out@) == all.take(i as int),
        decreases messages@.len() - i,
    {
        let ghost before = json::element_views(out@);
        let m = &messages[i];
        let mut members: Vec<(String, Json)> = Vec::new();
        members.push((String::from_str("role"), Json::Str(m.role.clone())));
        members.push((String::from_str("content"), Json::Str(m.content.clone())));
        assert(json::member_views(members@) =~= message_value(m@)->Object_0);
        let value = Json::Object(members);
        let ghost v = value@;
        out.push(value);
        i = i + 1;
        assert(json::element_views(out@) =~= before.push(v));
        assert(all.take(i as int) =~= all.take(i - 1).push(all[i - 1]));
    }
    assert(all.take(i as int) =~= all);
    Json::Array(out)
}

// --------------------------------------------------------------- whole requests

/// A request under a Modelfile: in a chat the messages are composed with the
/// Modelfile's, then its parameters are filled in. None where the messages of a
/// chat cannot be read.
pub open spec fn body_with_modelfile(
    body: JsonView,
    mf: ModelfileView,
    floats: Seq<Option<u64>>,
    is_chat: bool,
) -> Option<JsonView> {
    match body {
        JsonView::Object(members) => {
            let composed = if is_chat {
                match json::lookup(members, "messages"@) {
                    Some(JsonView::Array(a)) => match messages_of(a) {
                        Some(m) => Some(
                            json::member_set(
                                members,
                                "messages"@,
                                JsonView::Array(
                                    crate::registry::modelfile::composed(mf, m).map_values(
                                        |x: MessageView| message_value(x),
                                    ),
                                ),
                            ),
                        ),
                        None => None,
                    },
                    _ => Some(members),
                }
            } else {
                Some(members)
            };
            match composed {
                Some(c) => Some(
                    JsonView::Object(
                        parameters_applied(c, mf.parameters, floats, mf.parameters.len()),
                    ),
                ),
                None => None,
            }
        },
        _ => Some(body),
    }
}

/// Applies a Modelfile to a request on its way to the model server. None where
/// the messages of a chat cannot be read: the request then goes on unchanged.
pub fn apply_modelfile_to_body(
    body: &Json,
    mf: &Modelfile,
    floats: &[Option<u64>],
    is_chat: bool,
) -> (r: Option<Json>)
    requires
        floats@.len() == mf@.parameters.len(),
    ensures
        match r {
            Some(j) => body_with_modelfile(body@, mf@, floats@, is_chat) == Some(j@),
            None => body_with_modelfile(body@, mf@, floats@, is_chat) is None,
        },
{
    let copy = copy_json(body);
    match copy {
        Json::Object(mut members) => {
            assert(body@ == JsonView::Object(json::member_views(members@)));
            if is_chat {
                if let Some(v) = body.get("messages") {
                    if let Json::Array(a) = v {
                        match read_messages(a.as_slice()) {
                            Some(original) => {
                                let merged = mf.apply_to_messages(original.as_slice());
                                let value = messages_json(merged.as_slice());
                                set_member(&mut members, "messages", value);
                            },
                            None => {
                                return None;
                            },
                        }
                    }
                }
            }
            apply_modelfile_parameters(&mut members, mf, floats);
            Some(Json::Object(members))
        },
        other => Some(other),
    }
}

/// The options that go to the model server, with the names that they have there.
pub open spec fn option_set(
    members: Seq<(Seq<char>, JsonView)>,
    options: JsonView,
    name: Seq<char>,
    upstream: Seq<char>,
) -> Seq<(Seq<char>, JsonView)> {
    match json::member(options, name) {
        Some(v) => json::member_set(members, upstream, v),
        None => members,
    }
}

/// The members under the caller's options: temperature, top_p, num_predict (as
/// max_tokens) and stop, each over what is there; other options are ignored.
pub open spec fn options_applied(
    members: Seq<(Seq<char>, JsonView)>,
    options: JsonView,
) -> Seq<(Seq<char>, JsonView)> {
    let a = option_set(members, options, "temperature"@, "temperature"@);
    let b = option_set(a, options, "top_p"@, "top_p"@);
    let c = option_set(b, options, "num_predict"@, "max_tokens"@);
    option_set(c, options, "stop"@, "stop"@)
}

fn set_option(members: &mut Vec<(String, Json)>, options: &Json, name: &str, upstream: &str)
    ensures
        json::member_views(final(members)@) == option_set(
            json::member_views(old(members)@),
            options@,
            name@,
            upstream@,
        ),
{
    if let Some(v) = options.get(name) {
        set_member(members, upstream, copy_json(v));
    }
}

/// Lays the caller's options over a request.
pub fn apply_options(members: &mut Vec<(String, Json)>, options: &Json)
    ensures
        json::member_views(final(members)@) == options_applied(
            json::member_views(old(members)@),
            options@,
        ),
{
    set_option(members, options, "temperature", "temperature");
    set_option(members, options, "top_p", "top_p");
    set_option(members, options, "num_predict", "max_tokens");
    set_option(members, options, "stop", "stop");
}

/// The request that a generation becomes.
pub open spec fn generate_request(
    model: Seq<char>,
    prompt: Seq<char>,
    stream: bool,
) -> Seq<(Seq<char>, JsonView)> {
    seq![
        ("model"@, JsonView::Str(model)),
        ("prompt"@, JsonView::Str(prompt)),
        ("stream"@, JsonView::Bool(stream)),
    ]
}

/// The request that a chat becomes.
pub open spec fn chat_request(
    model: Seq<char>,
    messages: Seq<MessageView>,
    stream: bool,
) -> Seq<(Seq<char>, JsonView)> {
    seq![
        ("model"@, JsonView::Str(model)),
        (
            "messages"@,
            JsonView::Array(messages.map_values(|m: MessageView| message_value(m))),
        ),
        ("stream"@, JsonView::Bool(stream)),
    ]
}

/// A request with a Modelfile's parameters, where there is one, under the
/// caller's options.
pub open spec fn finished_request(
    members: Seq<(Seq<char>, JsonView)>,
    mf: Option<ModelfileView>,
    floats: Seq<Option<u64>>,
    options: JsonView,
) -> JsonView {
    JsonView::Object(
        options_applied(
            match mf {
                Some(m) => parameters_applied(members, m.parameters, floats, m.parameters.len()),
                None => members,
            },
            options,
        ),
    )
}

/// A Modelfile that may be absent.
pub open spec fn modelfile_view(mf: Option<&Modelfile>) -> Option<ModelfileView> {
    match mf {
        Some(m) => Some(m@),
        None => None,
    }
}

fn finish_request(
    members: Vec<(String, Json)>,
    mf: Option<&Modelfile>,
    floats: &[Option<u64>],
    options: &Json,
) -> (r: Json)
    requires
        mf matches Some(m) ==> floats@.len() == m@.parameters.len(),
    ensures
        r@ == finished_request(
            json::member_views(members@),
            modelfile_view(mf),
            floats@,
            options@,
        ),
{
    let mut out = members;
    if let Some(m) = mf {
        apply_modelfile_parameters(&mut out, m, floats);
    }
    apply_options(&mut out, options);
    Json::Object(out)
}

/// Builds the request that an Ollama generation becomes: the prompt under the
/// Modelfile's template, its parameters, the caller's options.
pub fn build_generate_request(
    model: &str,
    prompt: &str,
    stream: bool,
    mf: Option<&Modelfile>,
    floats: &[Option<u64>],
    options: &Json,
) -> (r: Json)
    requires
        mf matches Some(m) ==> floats@.len() == m@.parameters.len(),
    ensures
        r@ == finished_request(
            generate_request(
                model@,
                match mf {
                    Some(m) => crate::registry::modelfile::rendered_prompt(m@, prompt@),
                    None => prompt@,
                },
                stream,
            ),
            modelfile_view(mf),
            floats@,
            options@,
        ),
{
    let rendered: String = match mf {
        Some(m) => m.render_template(prompt),
        None => String::from_str(prompt),
    };
    let ghost shown = rendered@;
    let mut members: Vec<(String, Json)> = Vec::new();
    members.push((String::from_str("model"), str_json(model)));
    members.push((String::from_str("prompt"), Json::Str(rendered)));
    members.push((String::from_str("stream"), Json::Bool(stream)));
    assert(json::member_views(members@) =~= generate_request(model@, shown, stream));
    finish_request(members, mf, floats, options)
}

/// Builds the request that an Ollama chat becomes: the messages composed with the
/// Modelfile's, its parameters, the caller's options.
pub fn build_chat_request(
    model: &str,
    messages: &[ChatMessage],
    stream: bool,
    mf: Option<&Modelfile>,
    floats: &[Option<u64>],
    options: &Json,
) -> (r: Json)
    requires
        mf matches Some(m) ==> floats@.len() == m@.parameters.len(),
    ensures
        r@ == finished_request(
            chat_request(
                model@,
                match mf {
                    Some(m) => crate::registry::modelfile::composed(
                        m@,
                        crate::api::types::message_texts(messages@),
                    ),
                    None => crate::api::types::message_texts(messages@),
                },
                stream,
            ),
            modelfile_view(mf),
            floats@,
            options@,
        ),
{
    let value: Json = match mf {
        Some(m) => {
            let merged = m.apply_to_messages(messages);
            messages_json(merged.as_slice())
        },
        None => messages_json(messages),
    };
    let ghost shown = value@;
    let mut members: Vec<(String, Json)> = Vec::new();
    members.push((String::from_str("model"), str_json(model)));
    members.push((String::from_str("messages"), value));
    members.push((String::from_str("stream"), Json::Bool(stream)));
    assert(json::member_views(members@) =~= seq![
        ("model"@, JsonView::Str(model@)),
        ("messages"@, shown),
        ("stream"@, JsonView::Bool(stream)),
    ]);
    finish_request(members, mf, floats, options)
}

// ------------------------------------------------------------------------ laws

/// What a request sets stays as it set it, whatever the Modelfile's parameters.
pub proof fn law_request_wins_over_parameters(
    members: Seq<(Seq<char>, JsonView)>,
    parameters: Seq<(Seq<char>, Seq<char>)>,
    floats: Seq<Option<u64>>,
    n: nat,
    key: Seq<char>,
)
    requires
        n <= parameters.len(),
        json::lookup(members, key) is Some,
    ensures
        json::lookup(parameters_applied(members, parameters, floats, n), key) == json::lookup(
            members,
            key,
        ),
    decreases n,
{
    if n > 0 {
        law_request_wins_over_parameters(members, parameters, floats, (n - 1) as nat, key);
        let so_far = parameters_applied(members, parameters, floats, (n - 1) as nat);
        let name = parameters[n - 1].0;
        let raw = parameters[n - 1].1;
        if name == "stop"@ {
            if json::lookup(members, "stop"@) is None {
                lemma_stop_added_keeps(so_far, raw, key);
            }
        } else {
            let value = parameter_value(raw, floats[n - 1]);
            if key != upstream_name(name) {
                json::law_default_keeps_what_is_there(so_far, upstream_name(name), value, key);
            }
        }
    }
}

/// Another stop text changes nothing but the stop texts.
pub proof fn lemma_stop_added_keeps(
    members: Seq<(Seq<char>, JsonView)>,
    raw: Seq<char>,
    key: Seq<char>,
)
    requires
        key != "stop"@,
    ensures
        json::lookup(stop_added(members, raw), key) == json::lookup(members, key),
{
    let stop = JsonView::Str(without_quotes(raw));
    match json::lookup(members, "stop"@) {
        Some(JsonView::Array(a)) => {
            json::law_set_member_is_read_back(
                members,
                "stop"@,
                JsonView::Array(a.push(stop)),
                key,
            );
        },
        Some(_) => {},
        None => {
            json::law_default_keeps_what_is_there(
                members,
                "stop"@,
                JsonView::Array(seq![stop]),
                key,
            );
        },
    }
}

/// A parameter that is not there yet is filled in under the model server's name
/// for it.
pub proof fn law_absent_parameter_is_filled_in(
    members: Seq<(Seq<char>, JsonView)>,
    own_stop: bool,
    key: Seq<char>,
    raw: Seq<char>,
    float: Option<u64>,
)
    requires
        key != "stop"@,
        json::lookup(members, upstream_name(key)) is None,
    ensures
        json::lookup(
            parameter_applied(members, own_stop, key, raw, float),
            upstream_name(key),
        ) == Some(parameter_value(raw, float)),
{
    let other = upstream_name(key).push('x');
    assert(other.len() != upstream_name(key).len());
    json::law_default_keeps_what_is_there(
        members,
        upstream_name(key),
        parameter_value(raw, float),
        other,
    );
}

/// The caller's option for a field of the request, if it gives one.
pub open spec fn option_for(options: JsonView, key: Seq<char>) -> Option<JsonView> {
    if key == "max_tokens"@ {
        json::member(options, "num_predict"@)
    } else if key == "temperature"@ || key == "top_p"@ || key == "stop"@ {
        json::member(options, key)
    } else {
        None
    }
}

/// The caller's options win over what is there, and a field for which none is given
/// stays as it is.
pub proof fn law_options_win(
    members: Seq<(Seq<char>, JsonView)>,
    options: JsonView,
    key: Seq<char>,
)
    ensures
        json::lookup(options_applied(members, options), key) == match option_for(options, key) {
            Some(v) => Some(v),
            None => json::lookup(members, key),
        },
{
    reveal_strlit("temperature");
    reveal_strlit("top_p");
    reveal_strlit("max_tokens");
    reveal_strlit("stop");
    assert("temperature"@.len() == 11 && "top_p"@.len() == 5 && "max_tokens"@.len() == 10
        && "stop"@.len() == 4);
    let a = option_set(members, options, "temperature"@, "temperature"@);
    let b = option_set(a, options, "top_p"@, "top_p"@);
    let c = option_set(b, options, "num_predict"@, "max_tokens"@);
    lemma_option_set(members, options, "temperature"@, "temperature"@, key);
    lemma_option_set(a, options, "top_p"@, "top_p"@, key);
    lemma_option_set(b, options, "num_predict"@, "max_tokens"@, key);
    lemma_option_set(c, options, "stop"@, "stop"@, key);
}

proof fn lemma_option_set(
    members: Seq<(Seq<char>, JsonView)>,
    options: JsonView,
    name: Seq<char>,
    upstream: Seq<char>,
    key: Seq<char>,
)
    ensures
        json::lookup(option_set(members, options, name, upstream), key) == match json::member(
            options,
            name,
        ) {
            Some(v) if key == upstream => Some(v),
            _ => json::lookup(members, key),
        },
{
    if let Some(v) = json::member(options, name) {
        if key == upstream {
            let other = upstream.push('-');
            assert(other.len() != upstream.len());
            json::law_set_member_is_read_back(members, upstream, v, other);
        } else {
            json::law_set_member_is_read_back(members, upstream, v, key);
        }
    }
}

} // verus!

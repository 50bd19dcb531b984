//! What holds of the requests that go to a model server.
use crate::api::bodies;
use crate::api::json;
use crate::api::json::{JsonNumber, JsonView};
use crate::api::types::MessageView;
use crate::number;
use crate::registry::modelfile;
use crate::registry::modelfile::ModelfileView;
use crate::text;
use crate::text_laws;
use vstd::prelude::*;

verus! {

/// The members of an object.
pub open spec fn members_of(v: JsonView) -> Seq<(Seq<char>, JsonView)> {
    match v {
        JsonView::Object(m) => m,
        _ => Seq::empty(),
    }
}

/// What is read under a name is what stands there: the value of the first member with
/// that name, and nothing where no member has it.
pub proof fn law_the_first_member_is_read(members: Seq<(Seq<char>, JsonView)>, key: Seq<char>)
    ensures
        match json::lookup(members, key) {
            Some(v) => exists|i: int|
                0 <= i < members.len() && #[trigger] members[i] == (key, v) && forall|j: int|
                    0 <= j < i ==> (#[trigger] members[j]).0 != key,
            None => forall|j: int| 0 <= j < members.len() ==> (#[trigger] members[j]).0 != key,
        },
        json::member(JsonView::Object(members), key) == json::lookup(members, key),
    decreases members.len(),
{
    if members.len() > 0 {
        if members[0].0 == key {
            assert(members[0] == (key, members[0].1));
        } else {
            let rest = members.skip(1);
            law_the_first_member_is_read(rest, key);
            match json::lookup(rest, key) {
                Some(v) => {
                    let i = choose|i: int|
                        0 <= i < rest.len() && #[trigger] rest[i] == (key, v) && forall|j: int|
                            0 <= j < i ==> (#[trigger] rest[j]).0 != key;
                    assert(members[i + 1] == (key, v));
                    assert forall|j: int| 0 <= j < i + 1 implies (#[trigger] members[j]).0 != key by {
                        if j > 0 {
                            assert(rest[j - 1] == members[j]);
                        }
                    }
                },
                None => {
                    assert forall|j: int| 0 <= j < members.len() implies (#[trigger] members[j]).0
                        != key by {
                        if j > 0 {
                            assert(rest[j - 1] == members[j]);
                        }
                    }
                },
            }
        }
    }
}

// -------------------------------------------------------------------- conversations

/// A value is a chat turn of a role with a content.
pub open spec fn is_turn(v: JsonView, role: Seq<char>, content: Seq<char>) -> bool {
    &&& v is Object
    &&& json::lookup(members_of(v), "role"@) == Some(JsonView::Str(role))
    &&& json::lookup(members_of(v), "content"@) == Some(JsonView::Str(content))
}

proof fn lemma_turn_value(m: MessageView)
    ensures
        is_turn(bodies::message_value(m), m.role, m.content),
{
    reveal_strlit("role");
    reveal_strlit("content");
    assert("role"@.len() != "content"@.len());
    let o = members_of(bodies::message_value(m));
    assert(o.skip(1)[0] == o[1]);
    reveal_with_fuel(json::lookup, 3);
}

/// A chat reaches the model whole: the request holds a turn for each turn of the
/// conversation, in order, with its role and its content; it names the model and says
/// whether the answer streams. Neither a Modelfile's parameters nor the caller's options
/// change any of that.
pub proof fn law_every_turn_reaches_the_model(
    model: Seq<char>,
    messages: Seq<MessageView>,
    stream: bool,
    mf: Option<ModelfileView>,
    floats: Seq<Option<u64>>,
    options: JsonView,
)
    ensures
        ({
            let body = bodies::finished_request(
                bodies::chat_request(model, messages, stream),
                mf,
                floats,
                options,
            );
            &&& body is Object
            &&& json::lookup(members_of(body), "model"@) == Some(JsonView::Str(model))
            &&& json::lookup(members_of(body), "stream"@) == Some(JsonView::Bool(stream))
            &&& json::lookup(members_of(body), "messages"@) matches Some(JsonView::Array(a)) && {
                &&& a.len() == messages.len()
                &&& forall|i: int|
                    0 <= i < messages.len() ==> is_turn(
                        #[trigger] a[i],
                        messages[i].role,
                        messages[i].content,
                    )
            }
        }),
{
    let start = bodies::chat_request(model, messages, stream);
    let a = messages.map_values(|m: MessageView| bodies::message_value(m));
    lemma_member_names();
    assert(start.skip(1)[0] == start[1]);
    assert(start.skip(1).skip(1)[0] == start[2]);
    reveal_with_fuel(json::lookup, 4);
    assert(json::lookup(start, "messages"@) == Some(JsonView::Array(a)));
    lemma_fixed_member(start, mf, floats, options, "model"@);
    lemma_fixed_member(start, mf, floats, options, "messages"@);
    lemma_fixed_member(start, mf, floats, options, "stream"@);
    assert forall|i: int| 0 <= i < messages.len() implies is_turn(
        #[trigger] a[i],
        messages[i].role,
        messages[i].content,
    ) by {
        lemma_turn_value(messages[i]);
    }
}

proof fn lemma_member_names()
    ensures
        "model"@ != "messages"@,
        "model"@ != "prompt"@,
        "model"@ != "stream"@,
        "messages"@ != "stream"@,
        "prompt"@ != "stream"@,
        forall|k: Seq<char>|
            (k == "model"@ || k == "messages"@ || k == "prompt"@ || k == "stream"@) ==> #[trigger]
            is_no_option(k),
{
    reveal_strlit("model");
    reveal_strlit("messages");
    reveal_strlit("prompt");
    reveal_strlit("stream");
    reveal_strlit("temperature");
    reveal_strlit("top_p");
    reveal_strlit("max_tokens");
    reveal_strlit("stop");
    assert("model"@[0] == 'm');
    assert("prompt"@[0] == 'p');
    assert("stream"@[0] == 's');
    assert("messages"@.len() == 8);
    assert("model"@.len() == 5);
    assert("stream"@.len() == 6);
    assert("prompt"@.len() == 6);
    assert("temperature"@.len() == 11);
    assert("top_p"@[0] == 't');
    assert("max_tokens"@.len() == 10);
    assert("stop"@.len() == 4);
}

/// No option of the caller goes under this name.
pub open spec fn is_no_option(k: Seq<char>) -> bool {
    k != "temperature"@ && k != "top_p"@ && k != "max_tokens"@ && k != "stop"@
}

proof fn lemma_fixed_member(
    start: Seq<(Seq<char>, JsonView)>,
    mf: Option<ModelfileView>,
    floats: Seq<Option<u64>>,
    options: JsonView,
    key: Seq<char>,
)
    requires
        json::lookup(start, key) is Some,
        is_no_option(key),
    ensures
        json::lookup(
            members_of(bodies::finished_request(start, mf, floats, options)),
            key,
        ) == json::lookup(start, key),
{
    let filled = match mf {
        Some(m) => bodies::parameters_applied(start, m.parameters, floats, m.parameters.len()),
        None => start,
    };
    if let Some(m) = mf {
        bodies::law_request_wins_over_parameters(
            start,
            m.parameters,
            floats,
            m.parameters.len(),
            key,
        );
    }
    bodies::law_options_win(filled, options, key);
}

/// A generation reaches the model with its prompt as it is, under the model's name.
pub proof fn law_the_prompt_reaches_the_model(
    model: Seq<char>,
    prompt: Seq<char>,
    stream: bool,
    mf: Option<ModelfileView>,
    floats: Seq<Option<u64>>,
    options: JsonView,
)
    ensures
        ({
            let body = bodies::finished_request(
                bodies::generate_request(model, prompt, stream),
                mf,
                floats,
                options,
            );
            &&& body is Object
            &&& json::lookup(members_of(body), "model"@) == Some(JsonView::Str(model))
            &&& json::lookup(members_of(body), "stream"@) == Some(JsonView::Bool(stream))
            &&& json::lookup(members_of(body), "prompt"@) == Some(JsonView::Str(prompt))
        }),
{
    let start = bodies::generate_request(model, prompt, stream);
    lemma_member_names();
    assert(start.skip(1)[0] == start[1]);
    assert(start.skip(1).skip(1)[0] == start[2]);
    reveal_with_fuel(json::lookup, 4);
    lemma_fixed_member(start, mf, floats, options, "model"@);
    lemma_fixed_member(start, mf, floats, options, "prompt"@);
    lemma_fixed_member(start, mf, floats, options, "stream"@);
}

/// A conversation under a Modelfile ends with the caller's turns, all of them and in
/// order, right behind the Modelfile's own; before these stands its system text, where
/// it has one and the caller has none.
pub proof fn law_conversation_is_composed_whole(mf: ModelfileView, messages: Seq<MessageView>)
    ensures
        ({
            let all = modelfile::composed(mf, messages);
            let given = exists|i: int| 0 <= i < messages.len() && #[trigger] messages[i].role
                == "system"@;
            let lead: int = if mf.system is Some && !given {
                1
            } else {
                0
            };
            &&& all.len() == lead + mf.messages.len() + messages.len()
            &&& forall|i: int|
                0 <= i < messages.len() ==> all[lead + mf.messages.len() + i]
                    == #[trigger] messages[i]
            &&& forall|i: int|
                0 <= i < mf.messages.len() ==> all[lead + i] == #[trigger] mf.messages[i]
            &&& lead == 1 ==> all[0].role == "system"@ && all[0].content == mf.system->0
        }),
{
}

/// A turn that is written is read back, and so is a whole conversation.
pub proof fn law_turns_are_read_back(messages: Seq<MessageView>)
    ensures
        bodies::messages_of(messages.map_values(|m: MessageView| bodies::message_value(m)))
            == Some(messages),
    decreases messages.len(),
{
    let a = messages.map_values(|m: MessageView| bodies::message_value(m));
    if messages.len() > 0 {
        law_turns_are_read_back(messages.drop_last());
        assert(a.drop_last() =~= messages.drop_last().map_values(
            |m: MessageView| bodies::message_value(m),
        ));
        lemma_turn_value(messages.last());
        assert(messages.drop_last().push(messages.last()) =~= messages);
    } else {
        assert(messages =~= Seq::<MessageView>::empty());
    }
}

/// A turn is read from its role and its content, in whatever order they stand; what is
/// absent or null counts as empty.
pub proof fn law_turn_is_read_by_name(members: Seq<(Seq<char>, JsonView)>)
    ensures
        ({
            let read = bodies::message_of(JsonView::Object(members));
            let role = json::lookup(members, "role"@);
            let content = json::lookup(members, "content"@);
            &&& role matches Some(JsonView::Str(r)) ==> (content matches Some(JsonView::Str(c)) ==> (
            read matches Some(m) && m.role == r && m.content == c))
            &&& role matches Some(JsonView::Str(r)) ==> (content is None ==> (read matches Some(m)
                && m.role == r && m.content.len() == 0))
            &&& role matches Some(JsonView::Str(r)) ==> (content == Some(JsonView::Null) ==> (
            read matches Some(m) && m.role == r && m.content.len() == 0))
            &&& role matches Some(JsonView::Bool(_)) ==> read is None
            &&& content matches Some(JsonView::Array(_)) ==> read is None
            &&& content matches Some(JsonView::Object(_)) ==> read is None
        }),
{
}

/// In a chat under a Modelfile the request's turns become the composed conversation, and
/// everything else that the request sets stays as it is.
pub proof fn law_modelfile_leaves_the_rest_of_a_chat(
    members: Seq<(Seq<char>, JsonView)>,
    messages: Seq<MessageView>,
    mf: ModelfileView,
    floats: Seq<Option<u64>>,
    key: Seq<char>,
)
    requires
        json::lookup(members, "messages"@) == Some(
            JsonView::Array(messages.map_values(|m: MessageView| bodies::message_value(m))),
        ),
        json::lookup(members, key) is Some,
        key != "messages"@,
    ensures
        bodies::body_with_modelfile(JsonView::Object(members), mf, floats, true) matches Some(body)
            && {
            let all = modelfile::composed(mf, messages);
            &&& json::lookup(members_of(body), key) == json::lookup(members, key)
            &&& json::lookup(members_of(body), "messages"@) matches Some(JsonView::Array(a)) && {
                &&& a.len() == all.len()
                &&& forall|i: int|
                    0 <= i < all.len() ==> is_turn(#[trigger] a[i], all[i].role, all[i].content)
            }
        },
{
    law_turns_are_read_back(messages);
    let all = modelfile::composed(mf, messages);
    let a = all.map_values(|m: MessageView| bodies::message_value(m));
    let set = json::member_set(members, "messages"@, JsonView::Array(a));
    json::law_set_member_is_read_back(members, "messages"@, JsonView::Array(a), key);
    bodies::law_request_wins_over_parameters(
        set,
        mf.parameters,
        floats,
        mf.parameters.len(),
        key,
    );
    bodies::law_request_wins_over_parameters(
        set,
        mf.parameters,
        floats,
        mf.parameters.len(),
        "messages"@,
    );
    assert forall|i: int| 0 <= i < all.len() implies is_turn(
        #[trigger] a[i],
        all[i].role,
        all[i].content,
    ) by {
        lemma_turn_value(all[i]);
    }
}

/// A request that is no chat keeps everything it sets under a Modelfile.
pub proof fn law_modelfile_leaves_a_completion(
    members: Seq<(Seq<char>, JsonView)>,
    mf: ModelfileView,
    floats: Seq<Option<u64>>,
    key: Seq<char>,
)
    requires
        json::lookup(members, key) is Some,
    ensures
        bodies::body_with_modelfile(JsonView::Object(members), mf, floats, false) matches Some(body)
            && json::lookup(members_of(body), key) == json::lookup(members, key),
{
    bodies::law_request_wins_over_parameters(
        members,
        mf.parameters,
        floats,
        mf.parameters.len(),
        key,
    );
}

// ----------------------------------------------------------------------- parameters

/// The caller's options go under the model server's names: the number of tokens to
/// predict as the largest number of tokens, the others under their own. What has no
/// option stays as it is.
pub proof fn law_options_go_under_their_names(
    members: Seq<(Seq<char>, JsonView)>,
    options: Seq<(Seq<char>, JsonView)>,
    v: JsonView,
    key: Seq<char>,
)
    ensures
        ({
            let after = bodies::options_applied(members, JsonView::Object(options));
            &&& json::lookup(options, "num_predict"@) == Some(v) ==> json::lookup(
                after,
                "max_tokens"@,
            ) == Some(v)
            &&& json::lookup(options, "temperature"@) == Some(v) ==> json::lookup(
                after,
                "temperature"@,
            ) == Some(v)
            &&& json::lookup(options, "top_p"@) == Some(v) ==> json::lookup(after, "top_p"@)
                == Some(v)
            &&& json::lookup(options, "stop"@) == Some(v) ==> json::lookup(after, "stop"@) == Some(
                v,
            )
            &&& json::lookup(options, "num_predict"@) is None ==> json::lookup(
                after,
                "max_tokens"@,
            ) == json::lookup(members, "max_tokens"@)
            &&& json::lookup(options, "temperature"@) is None ==> json::lookup(
                after,
                "temperature"@,
            ) == json::lookup(members, "temperature"@)
            &&& json::lookup(options, "top_p"@) is None ==> json::lookup(after, "top_p"@)
                == json::lookup(members, "top_p"@)
            &&& json::lookup(options, "stop"@) is None ==> json::lookup(after, "stop"@)
                == json::lookup(members, "stop"@)
            &&& is_no_option(key) ==> json::lookup(after, key) == json::lookup(members, key)
        }),
{
    let o = JsonView::Object(options);
    reveal_strlit("temperature");
    reveal_strlit("top_p");
    reveal_strlit("max_tokens");
    reveal_strlit("stop");
    assert("temperature"@.len() == 11 && "top_p"@.len() == 5 && "max_tokens"@.len() == 10
        && "stop"@.len() == 4);
    bodies::law_options_win(members, o, "max_tokens"@);
    bodies::law_options_win(members, o, "temperature"@);
    bodies::law_options_win(members, o, "top_p"@);
    bodies::law_options_win(members, o, "stop"@);
    bodies::law_options_win(members, o, key);
}

/// A Modelfile's number of tokens to predict goes under the model server's name for it;
/// any other parameter under its own.
pub proof fn law_parameters_go_under_their_names(
    members: Seq<(Seq<char>, JsonView)>,
    own_stop: bool,
    key: Seq<char>,
    raw: Seq<char>,
    float: Option<u64>,
)
    requires
        key != "stop"@,
        json::lookup(members, key) is None,
        json::lookup(members, "max_tokens"@) is None,
    ensures
        ({
            let after = bodies::parameter_applied(members, own_stop, key, raw, float);
            &&& key != "num_predict"@ ==> json::lookup(after, key) == Some(
                bodies::parameter_value(raw, float),
            )
            &&& key == "num_predict"@ ==> json::lookup(after, "max_tokens"@) == Some(
                bodies::parameter_value(raw, float),
            ) && json::lookup(after, key) is None
        }),
{
    bodies::law_absent_parameter_is_filled_in(members, own_stop, key, raw, float);
    if key == "num_predict"@ {
        reveal_strlit("num_predict");
        reveal_strlit("max_tokens");
        assert("num_predict"@.len() != "max_tokens"@.len());
        json::law_default_keeps_what_is_there(
            members,
            "max_tokens"@,
            bodies::parameter_value(raw, float),
            "num_predict"@,
        );
    }
}

/// Stop texts of a Modelfile gather in a list, one after the other, and change nothing
/// else; a request with a list of its own keeps it.
pub proof fn law_stop_texts_gather(
    members: Seq<(Seq<char>, JsonView)>,
    raw: Seq<char>,
    float: Option<u64>,
    key: Seq<char>,
)
    requires
        raw.len() > 0 ==> raw[0] != '"' && raw.last() != '"',
    ensures
        ({
            let after = bodies::parameter_applied(members, false, "stop"@, raw, float);
            &&& json::lookup(members, "stop"@) matches Some(JsonView::Array(a)) ==> json::lookup(
                after,
                "stop"@,
            ) == Some(JsonView::Array(a.push(JsonView::Str(raw))))
            &&& json::lookup(members, "stop"@) is None ==> json::lookup(after, "stop"@) == Some(
                JsonView::Array(seq![JsonView::Str(raw)]),
            )
            &&& key != "stop"@ ==> json::lookup(after, key) == json::lookup(members, key)
            &&& bodies::parameter_applied(members, true, "stop"@, raw, float) == members
        }),
{
    let stop = JsonView::Str(raw);
    assert(bodies::without_quotes(raw) == raw);
    let one = JsonView::Array(seq![stop]);
    if key != "stop"@ {
        if let Some(JsonView::Array(a)) = json::lookup(members, "stop"@) {
            json::law_set_member_is_read_back(
                members,
                "stop"@,
                JsonView::Array(a.push(stop)),
                key,
            );
        }
        if json::lookup(members, "stop"@) is None {
            json::law_default_keeps_what_is_there(members, "stop"@, one, key);
        }
    }
    reveal_strlit("stop");
    let none = Seq::<char>::empty();
    assert("stop"@.len() != none.len());
    if let Some(JsonView::Array(a)) = json::lookup(members, "stop"@) {
        json::law_set_member_is_read_back(members, "stop"@, JsonView::Array(a.push(stop)), none);
    }
    if json::lookup(members, "stop"@) is None {
        json::law_default_keeps_what_is_there(members, "stop"@, one, none);
    }
}

/// A whole number of a Modelfile goes on as that number, and a truth value as that truth
/// value; what stands for a float goes on as that float, and any other text as the text
/// without the quotes around it.
pub proof fn law_parameter_values_keep_their_kind(
    n: nat,
    bits: u64,
    word: Seq<char>,
    float: Option<u64>,
)
    requires
        n <= i64::MAX,
        word.len() > 0,
        text::is_ascii_word(word[0]) && !number::is_digit(word[0]),
        text_laws::is_tight(word),
        word != "true"@ && word != "false"@,
        word.last() != '"',
    ensures
        bodies::parameter_value(number::decimal(n), float) == JsonView::Number(
            JsonNumber::Unsigned(n as u64),
        ),
        bodies::parameter_value("true"@, None) == JsonView::Bool(true),
        bodies::parameter_value("false"@, None) == JsonView::Bool(false),
        bodies::parameter_value(word, Some(bits)) == JsonView::Number(JsonNumber::Float(bits)),
        bodies::parameter_value(word, None) == JsonView::Str(word),
        bodies::parameter_value("\""@ + word + "\""@, None) == JsonView::Str(word),
{
    let d = number::decimal(n);
    number::lemma_decimal_digits(n);
    number::law_decimal_round_trips(n, i64::MAX as nat);
    assert(number::is_digit(d[0]));
    assert(number::is_digit(d[d.len() - 1]));
    text_laws::lemma_tight_is_trimmed(d);
    reveal_strlit("true");
    reveal_strlit("false");
    reveal_strlit("\"");
    text_laws::lemma_tight_is_trimmed("true"@);
    text_laws::lemma_tight_is_trimmed("false"@);
    assert(!number::all_digits("true"@)) by {
        assert(!number::is_digit("true"@[0]));
    }
    assert(!number::all_digits("false"@)) by {
        assert(!number::is_digit("false"@[0]));
    }
    assert("true"@.len() != "false"@.len());
    text_laws::lemma_tight_is_trimmed(word);
    assert(!number::all_digits(word)) by {
        assert(!number::is_digit(word[0]));
    }
    let q = "\""@ + word + "\""@;
    assert(q[0] == '"' && q.last() == '"');
    text_laws::lemma_tight_is_trimmed(q);
    assert(!number::all_digits(q)) by {
        assert(!number::is_digit(q[0]));
    }
    assert(q.skip(1) =~= word + "\""@);
    assert((word + "\""@).drop_last() =~= word);
    assert((word + "\""@)[0] == word[0]);
    assert((word + "\""@).last() == '"');
    reveal_with_fuel(bodies::without_quotes, 4);
    assert("true"@[0] == 't' && "false"@[0] == 'f');
}

// ------------------------------------------------------------------------ templates

/// A placeholder is replaced wherever it stands: what comes before it stays, and what
/// comes after it is rendered in turn.
pub proof fn law_placeholders_are_filled_in(
    before: Seq<char>,
    after: Seq<char>,
    system: Seq<char>,
    prompt: Seq<char>,
    response: Seq<char>,
)
    requires
        !before.contains('{'),
    ensures
        modelfile::substituted(before + "{{ .Prompt }}"@ + after, system, prompt, response)
            == before + prompt + modelfile::substituted(after, system, prompt, response),
        modelfile::substituted(before + "{{ .System }}"@ + after, system, prompt, response)
            == before + system + modelfile::substituted(after, system, prompt, response),
        modelfile::substituted(before + "{{ .Response }}"@ + after, system, prompt, response)
            == before + response + modelfile::substituted(after, system, prompt, response),
{
    reveal_strlit("{{ .Prompt }}");
    reveal_strlit("{{ .System }}");
    reveal_strlit("{{ .Response }}");
    reveal_strlit("prompt");
    reveal_strlit("system");
    reveal_strlit("response");
    reveal_strlit(".Prompt");
    reveal_strlit(".System");
    reveal_strlit(".Response");
    reveal_strlit(" ");
    lemma_placeholder(before, " "@ + ".Prompt"@ + " "@, after, system, prompt, response);
    lemma_placeholder(before, " "@ + ".System"@ + " "@, after, system, prompt, response);
    lemma_placeholder(before, " "@ + ".Response"@ + " "@, after, system, prompt, response);
    reveal_strlit("{{");
    reveal_strlit("}}");
    assert("{{"@ + (" "@ + ".Prompt"@ + " "@) + "}}"@ =~= "{{ .Prompt }}"@);
    assert("{{"@ + (" "@ + ".System"@ + " "@) + "}}"@ =~= "{{ .System }}"@);
    assert("{{"@ + (" "@ + ".Response"@ + " "@) + "}}"@ =~= "{{ .Response }}"@);
    text_laws::law_trimming_gives_the_core(" "@, ".Prompt"@, " "@);
    text_laws::law_trimming_gives_the_core(" "@, ".System"@, " "@);
    text_laws::law_trimming_gives_the_core(" "@, ".Response"@, " "@);
    reveal_with_fuel(modelfile::undotted, 2);
    assert(text::ascii_lower(".Prompt"@.skip(1)) =~= "prompt"@);
    assert(text::ascii_lower(".System"@.skip(1)) =~= "system"@);
    assert(text::ascii_lower(".Response"@.skip(1)) =~= "response"@);
    assert("system"@[0] == 's' && "prompt"@[0] == 'p' && "response"@[0] == 'r');
}

proof fn lemma_placeholder(
    before: Seq<char>,
    raw: Seq<char>,
    after: Seq<char>,
    system: Seq<char>,
    prompt: Seq<char>,
    response: Seq<char>,
)
    requires
        !before.contains('{'),
        forall|i: int| 0 <= i < raw.len() ==> #[trigger] raw[i] != '}',
    ensures
        modelfile::substituted(
            before + ("{{"@ + raw + "}}"@) + after,
            system,
            prompt,
            response,
        ) == before + modelfile::placeholder_value(raw, system, prompt, response)
            + modelfile::substituted(after, system, prompt, response),
{
    reveal_strlit("{{");
    reveal_strlit("}}");
    let s = before + ("{{"@ + raw + "}}"@) + after;
    let n = before.len() as int;
    assert(s.subrange(n, n + 2) =~= "{{"@);
    assert forall|j: int| 0 <= j < n implies !text::occurs_at(s, "{{"@, j) by {
        if text::occurs_at(s, "{{"@, j) {
            assert(s.subrange(j, j + 2)[0] == s[j]);
            assert(s[j] == before[j]);
            assert(before.contains(before[j]));
        }
    }
    text_laws::lemma_text_is_at(s, "{{"@, 0, n);
    let rest = s.skip(n + 2);
    let k = raw.len() as int;
    assert(rest =~= raw + "}}"@ + after);
    assert(rest.subrange(k, k + 2) =~= "}}"@);
    assert forall|j: int| 0 <= j < k implies !text::occurs_at(rest, "}}"@, j) by {
        if text::occurs_at(rest, "}}"@, j) {
            assert(rest.subrange(j, j + 2)[0] == rest[j]);
            assert(rest[j] == raw[j]);
        }
    }
    text_laws::lemma_text_is_at(rest, "}}"@, 0, k);
    assert(rest.take(k) =~= raw);
    assert(rest.skip(k + 2) =~= after);
    assert(s.take(n) =~= before);
}

/// A Modelfile without a template leaves a prompt as it is; one with a template renders
/// it with its system text.
pub proof fn law_template_renders_the_prompt(mf: ModelfileView, prompt: Seq<char>)
    ensures
        mf.template is None ==> modelfile::rendered_prompt(mf, prompt) == prompt,
        mf.template == Some("{{ .Prompt }}"@) ==> modelfile::rendered_prompt(mf, prompt) == prompt,
        mf.template == Some("{{ .System }}"@) ==> (mf.system matches Some(s) ==>
            modelfile::rendered_prompt(mf, prompt) == s),
{
    let none = Seq::<char>::empty();
    let system = match mf.system {
        Some(s) => s,
        None => none,
    };
    law_placeholders_are_filled_in(none, none, system, prompt, none);
    reveal_strlit("{{");
    text::lemma_occurrence_from(none, "{{"@, 0);
    assert(modelfile::substituted(none, system, prompt, none) =~= none);
    assert(none + "{{ .Prompt }}"@ + none =~= "{{ .Prompt }}"@);
    assert(none + "{{ .System }}"@ + none =~= "{{ .System }}"@);
    assert(none + prompt + none =~= prompt);
    assert(none + system + none =~= system);
}

} // verus!

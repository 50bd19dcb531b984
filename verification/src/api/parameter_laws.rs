//! What holds of all parameters of a Modelfile together, of the options over them, and of
//! the lines and rows that the daemon tells.
use crate::api::bodies;
use crate::api::health;
use crate::api::health::HealthView;
use crate::api::json;
use crate::api::json::{JsonNumber, JsonView};
use crate::api::listing;
use crate::api::request_laws::members_of;
use crate::api::service_laws::lemma_lookup_at;
use crate::api::stream;
use crate::api::types::{ModelObject, PsEntry};
use crate::inference::pool::PoolEntry;
use crate::number;
use crate::registry::manifest::ManifestView;
use crate::registry::modelfile::ModelfileView;
use crate::text_laws;
use vstd::prelude::*;

verus! {

// ---------------------------------------------------------------------- parameters

/// The name under which the model server knows a parameter of this name.
pub open spec fn server_name(key: Seq<char>) -> Seq<char> {
    if key == "num_predict"@ {
        "max_tokens"@
    } else {
        key
    }
}

proof fn lemma_applied_keeps(
    members: Seq<(Seq<char>, JsonView)>,
    own_stop: bool,
    key: Seq<char>,
    raw: Seq<char>,
    float: Option<u64>,
    name: Seq<char>,
)
    requires
        name != "stop"@,
        key != "stop"@ && server_name(key) == name ==> json::lookup(members, name) is Some,
    ensures
        json::lookup(bodies::parameter_applied(members, own_stop, key, raw, float), name)
            == json::lookup(members, name),
{
    if key == "stop"@ {
        bodies::lemma_stop_added_keeps(members, raw, name);
    } else {
        let value = bodies::parameter_value(raw, float);
        if name != server_name(key) {
            json::law_default_keeps_what_is_there(members, server_name(key), value, name);
        }
    }
}

/// Every parameter of a Modelfile is filled in where the request sets nothing under its
/// name: of several with one name the first, whatever parameters stand around it.
pub proof fn law_every_parameter_is_filled_in(
    members: Seq<(Seq<char>, JsonView)>,
    parameters: Seq<(Seq<char>, Seq<char>)>,
    floats: Seq<Option<u64>>,
    n: nat,
    i: int,
)
    requires
        0 <= i < n <= parameters.len(),
        parameters[i].0 != "stop"@,
        json::lookup(members, server_name(parameters[i].0)) is None,
        forall|j: int|
            0 <= j < i ==> server_name((#[trigger] parameters[j]).0) != server_name(
                parameters[i].0,
            ),
    ensures
        json::lookup(
            bodies::parameters_applied(members, parameters, floats, n),
            server_name(parameters[i].0),
        ) == Some(bodies::parameter_value(parameters[i].1, floats[i])),
    decreases n,
{
    let own_stop = json::lookup(members, "stop"@) is Some;
    let name = server_name(parameters[i].0);
    reveal_strlit("max_tokens");
    reveal_strlit("stop");
    assert("max_tokens"@.len() != "stop"@.len());
    let so_far = bodies::parameters_applied(members, parameters, floats, (n - 1) as nat);
    if i < n - 1 {
        law_every_parameter_is_filled_in(members, parameters, floats, (n - 1) as nat, i);
        lemma_applied_keeps(
            so_far,
            own_stop,
            parameters[n - 1].0,
            parameters[n - 1].1,
            floats[n - 1],
            name,
        );
    } else {
        lemma_still_absent(members, parameters, floats, i as nat, name);
        bodies::law_absent_parameter_is_filled_in(
            so_far,
            own_stop,
            parameters[i].0,
            parameters[i].1,
            floats[i],
        );
    }
}

proof fn lemma_still_absent(
    members: Seq<(Seq<char>, JsonView)>,
    parameters: Seq<(Seq<char>, Seq<char>)>,
    floats: Seq<Option<u64>>,
    n: nat,
    name: Seq<char>,
)
    requires
        n <= parameters.len(),
        name != "stop"@,
        json::lookup(members, name) is None,
        forall|j: int| 0 <= j < n ==> server_name((#[trigger] parameters[j]).0) != name,
    ensures
        json::lookup(bodies::parameters_applied(members, parameters, floats, n), name) is None,
    decreases n,
{
    if n > 0 {
        lemma_still_absent(members, parameters, floats, (n - 1) as nat, name);
        lemma_applied_keeps(
            bodies::parameters_applied(members, parameters, floats, (n - 1) as nat),
            json::lookup(members, "stop"@) is Some,
            parameters[n - 1].0,
            parameters[n - 1].1,
            floats[n - 1],
            name,
        );
    }
}

/// The stop texts of a Modelfile's first `n` parameters, in order.
pub open spec fn stop_texts(parameters: Seq<(Seq<char>, Seq<char>)>, n: nat) -> Seq<JsonView>
    decreases n,
{
    if n == 0 {
        Seq::empty()
    } else if parameters[n - 1].0 == "stop"@ {
        stop_texts(parameters, (n - 1) as nat).push(
            JsonView::Str(bodies::without_quotes(parameters[n - 1].1)),
        )
    } else {
        stop_texts(parameters, (n - 1) as nat)
    }
}

/// All stop texts of a Modelfile reach the model server, in their order, where the
/// request has none of its own.
pub proof fn law_all_stop_texts_are_sent(
    members: Seq<(Seq<char>, JsonView)>,
    parameters: Seq<(Seq<char>, Seq<char>)>,
    floats: Seq<Option<u64>>,
    n: nat,
)
    requires
        n <= parameters.len(),
        json::lookup(members, "stop"@) is None,
    ensures
        json::lookup(bodies::parameters_applied(members, parameters, floats, n), "stop"@) == (
        if stop_texts(parameters, n).len() == 0 {
            None
        } else {
            Some(JsonView::Array(stop_texts(parameters, n)))
        }),
    decreases n,
{
    if n > 0 {
        let m = (n - 1) as nat;
        law_all_stop_texts_are_sent(members, parameters, floats, m);
        let so_far = bodies::parameters_applied(members, parameters, floats, m);
        let key = parameters[n - 1].0;
        let raw = parameters[n - 1].1;
        let other = "stop"@.push('x');
        assert(other.len() != "stop"@.len());
        let stop = JsonView::Str(bodies::without_quotes(raw));
        if key == "stop"@ {
            match json::lookup(so_far, "stop"@) {
                Some(JsonView::Array(a)) => {
                    json::law_set_member_is_read_back(
                        so_far,
                        "stop"@,
                        JsonView::Array(a.push(stop)),
                        other,
                    );
                },
                Some(_) => {},
                None => {
                    json::law_default_keeps_what_is_there(
                        so_far,
                        "stop"@,
                        JsonView::Array(seq![stop]),
                        other,
                    );
                    assert(stop_texts(parameters, m) =~= Seq::<JsonView>::empty());
                    assert(Seq::<JsonView>::empty().push(stop) =~= seq![stop]);
                },
            }
        } else {
            reveal_strlit("stop");
            reveal_strlit("max_tokens");
            assert("max_tokens"@.len() != "stop"@.len());
            json::law_default_keeps_what_is_there(
                so_far,
                server_name(key),
                bodies::parameter_value(raw, floats[n - 1]),
                "stop"@,
            );
        }
    }
}

/// What goes to the model server under a name is the caller's option for it, else what
/// the request and all parameters of the Modelfile give.
pub proof fn law_options_go_over_all_parameters(
    start: Seq<(Seq<char>, JsonView)>,
    mf: ModelfileView,
    floats: Seq<Option<u64>>,
    options: Seq<(Seq<char>, JsonView)>,
    v: JsonView,
)
    ensures
        ({
            let body = members_of(
                bodies::finished_request(start, Some(mf), floats, JsonView::Object(options)),
            );
            let filled = bodies::parameters_applied(
                start,
                mf.parameters,
                floats,
                mf.parameters.len(),
            );
            &&& json::lookup(options, "num_predict"@) == Some(v) ==> json::lookup(
                body,
                "max_tokens"@,
            ) == Some(v)
            &&& json::lookup(options, "num_predict"@) is None ==> json::lookup(
                body,
                "max_tokens"@,
            ) == json::lookup(filled, "max_tokens"@)
            &&& json::lookup(options, "temperature"@) == Some(v) ==> json::lookup(
                body,
                "temperature"@,
            ) == Some(v)
            &&& json::lookup(options, "temperature"@) is None ==> json::lookup(
                body,
                "temperature"@,
            ) == json::lookup(filled, "temperature"@)
            &&& json::lookup(options, "top_p"@) == Some(v) ==> json::lookup(body, "top_p"@)
                == Some(v)
            &&& json::lookup(options, "top_p"@) is None ==> json::lookup(body, "top_p"@)
                == json::lookup(filled, "top_p"@)
            &&& json::lookup(options, "stop"@) == Some(v) ==> json::lookup(body, "stop"@) == Some(
                v,
            )
            &&& json::lookup(options, "stop"@) is None ==> json::lookup(body, "stop"@)
                == json::lookup(filled, "stop"@)
        }),
{
    let filled = bodies::parameters_applied(start, mf.parameters, floats, mf.parameters.len());
    let o = JsonView::Object(options);
    bodies::law_options_win(filled, o, "max_tokens"@);
    bodies::law_options_win(filled, o, "temperature"@);
    bodies::law_options_win(filled, o, "top_p"@);
    bodies::law_options_win(filled, o, "stop"@);
    reveal_strlit("temperature");
    reveal_strlit("top_p");
    reveal_strlit("max_tokens");
    reveal_strlit("stop");
    assert("temperature"@.len() == 11 && "top_p"@.len() == 5 && "max_tokens"@.len() == 10
        && "stop"@.len() == 4);
}

/// Without a Modelfile a request has what it says and the caller's options, no more.
pub proof fn law_nothing_is_filled_in_without_a_modelfile(
    start: Seq<(Seq<char>, JsonView)>,
    floats: Seq<Option<u64>>,
)
    ensures
        bodies::finished_request(start, None, floats, JsonView::Null) == JsonView::Object(start),
        bodies::finished_request(start, None, floats, JsonView::Object(Seq::empty()))
            == JsonView::Object(start),
{
}

/// A negative number of a Modelfile goes on as that number.
pub proof fn law_negative_values_stay_numbers(n: i64, float: Option<u64>)
    requires
        n < 0,
    ensures
        bodies::parameter_value(number::signed_decimal(n as int), float) == JsonView::Number(
            JsonNumber::Negative(n),
        ),
{
    number::law_signed_numbers_round_trip(n, 0);
    let s = number::signed_decimal(n as int);
    number::lemma_decimal_digits((-(n as int)) as nat);
    reveal_strlit("-");
    let d = number::decimal((-(n as int)) as nat);
    assert(s[0] == '-');
    assert(s.last() == d[d.len() - 1]);
    assert(number::is_digit(d[d.len() - 1]));
    text_laws::lemma_tight_is_trimmed(s);
}

// --------------------------------------------------------------------------- bodies

/// A turn can be written as a list of its role and its content; a longer list is none.
pub proof fn law_turn_is_read_from_a_pair(role: Seq<char>, content: Seq<char>, more: JsonView)
    ensures
        bodies::message_of(
            JsonView::Array(seq![JsonView::Str(role), JsonView::Str(content)]),
        ) matches Some(m) && m.role == role && m.content == content,
        bodies::message_of(
            JsonView::Array(seq![JsonView::Str(role), JsonView::Str(content), more]),
        ) is None,
        bodies::message_of(JsonView::Str(role)) is None,
{
}

/// A chat whose turns cannot all be read is refused; one without turns, and what is no
/// object, goes on.
pub proof fn law_only_readable_chats_go_on(
    members: Seq<(Seq<char>, JsonView)>,
    turns: Seq<JsonView>,
    mf: ModelfileView,
    floats: Seq<Option<u64>>,
    is_chat: bool,
    other: JsonView,
)
    ensures
        json::lookup(members, "messages"@) == Some(JsonView::Array(turns)) && bodies::messages_of(
            turns,
        ) is None ==> bodies::body_with_modelfile(
            JsonView::Object(members),
            mf,
            floats,
            true,
        ) is None,
        json::lookup(members, "messages"@) is None ==> bodies::body_with_modelfile(
            JsonView::Object(members),
            mf,
            floats,
            true,
        ) == bodies::body_with_modelfile(JsonView::Object(members), mf, floats, false),
        !(other is Object) ==> bodies::body_with_modelfile(other, mf, floats, is_chat) == Some(
            other,
        ),
{
}

/// Turns can be read where each of them can.
pub proof fn law_turns_are_read_one_by_one(turns: Seq<JsonView>, turn: JsonView)
    ensures
        bodies::messages_of(turns.push(turn)) is Some <==> (bodies::messages_of(turns) is Some
            && bodies::message_of(turn) is Some),
{
    assert(turns.push(turn).drop_last() =~= turns);
}

// ---------------------------------------------------------------------------- lines

/// Each line is counted in turn: one that carries an event by that event, any other for
/// nothing.
pub proof fn law_lines_are_counted_in_turn(
    tally: int,
    lines: Seq<Seq<u8>>,
    line: Seq<u8>,
    data: Seq<u8>,
    event: JsonView,
)
    ensures
        ({
            let before = stream::tally_after_lines(tally, lines);
            let after = stream::tally_after_lines(tally, lines.push(line));
            let prompts = stream::prompt_of_lines(lines.push(line)) - stream::prompt_of_lines(
                lines,
            );
            &&& stream::payload_of(line) == Some(data) && json::json_of(data) == Ok::<
                JsonView,
                Seq<char>,
            >(event) ==> after == stream::tally_after(before, event) && prompts
                == stream::prompt_of_event(event)
            &&& stream::payload_of(line) is None ==> after == before && prompts == 0
        }),
        stream::tally_after_lines(tally, Seq::empty()) == tally,
        stream::prompt_of_lines(Seq::empty()) == 0,
{
    assert(lines.push(line).drop_last() =~= lines);
}

// ----------------------------------------------------------------------------- rows

/// The list of models names each by its alias, with the time it came.
pub proof fn law_model_rows_name_the_model(row: ModelObject, m: ManifestView)
    requires
        listing::is_row_of(row, m),
    ensures
        row.id@ == m.alias,
        row.created == m.downloaded_at.secs,
        row.object@ == "model"@,
        row.owned_by@ == "localllm"@,
{
}

/// The list of processes tells each model's port, its backend, and when it was started
/// and used.
pub proof fn law_process_rows_tell_the_process(
    p: PsEntry,
    alias: Seq<char>,
    e: PoolEntry,
    backend: Seq<char>,
)
    requires
        listing::is_process(p, alias, e, backend),
    ensures
        p.alias@ == alias,
        p.port == e.port,
        p.backend@ == backend,
        p.started_at@ == crate::time::text_of_time(e.started_at),
        p.last_used@ == crate::time::text_of_time(
            crate::time::Timestamp { secs: e.last_used, nanos: 0 },
        ),
{
}

/// A server that is not healthy is told with the time and the error of the last look.
pub proof fn law_unhealthy_server_is_told_with_its_error(alias: Seq<char>, h: HealthView)
    ensures
        ({
            let v = health::unhealthy_value(alias, h);
            &&& json::string_in(json::member(v, "alias"@)) == Some(alias)
            &&& json::string_in(json::member(v, "error"@)) == h.last_error
            &&& h.last_checked >= 0 ==> json::unsigned_in(json::member(v, "last_checked"@)) == Some(
                h.last_checked as u64,
            )
        }),
{
    reveal_strlit("alias");
    reveal_strlit("last_checked");
    reveal_strlit("error");
    assert("alias"@.len() == 5 && "last_checked"@.len() == 12 && "error"@.len() == 5);
    assert("alias"@[0] == 'a' && "error"@[0] == 'e');
    let o = members_of(health::unhealthy_value(alias, h));
    lemma_lookup_at(o, 0, "alias"@);
    lemma_lookup_at(o, 1, "last_checked"@);
    lemma_lookup_at(o, 2, "error"@);
}

} // verus!

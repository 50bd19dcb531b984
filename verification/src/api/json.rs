//! JSON values: what the handlers read and build.
use crate::text;
use serde_json::Value;
use vstd::prelude::*;
use vstd::string::StringExecFns;

verus! {

broadcast use vstd::std_specs::vec::axiom_vec_index_decreases;

/// A JSON number: a non-negative or a negative integer, or the bit pattern of a
/// 64-bit float.
#[derive(Debug, Clone, Copy, PartialEq, Eq, Structural)]
pub enum JsonNumber {
    Unsigned(u64),
    Negative(i64),
    Float(u64),
}

/// A JSON value. The members of an object are in order; the first of a name
/// counts.
#[derive(Debug)]
pub enum Json {
    Null,
    Bool(bool),
    Number(JsonNumber),
    Str(String),
    Array(Vec<Json>),
    Object(Vec<(String, Json)>),
}

/// A JSON value as text and numbers.
pub enum JsonView {
    Null,
    Bool(bool),
    Number(JsonNumber),
    Str(Seq<char>),
    Array(Seq<JsonView>),
    Object(Seq<(Seq<char>, JsonView)>),
}

/// A JSON value as text and numbers.
pub open spec fn json_view(j: Json) -> JsonView
    decreases j,
{
    match j {
        Json::Null => JsonView::Null,
        Json::Bool(b) => JsonView::Bool(b),
        Json::Number(n) => JsonView::Number(n),
        Json::Str(s) => JsonView::Str(s@),
        Json::Array(v) => JsonView::Array(
            Seq::new(
                v@.len(),
                |i: int|
                    if 0 <= i < v@.len() {
                        json_view(v@[i])
                    } else {
                        JsonView::Null
                    },
            ),
        ),
        Json::Object(v) => JsonView::Object(
            Seq::new(
                v@.len(),
                |i: int|
                    if 0 <= i < v@.len() {
                        (v@[i].0@, json_view(v@[i].1))
                    } else {
                        (Seq::empty(), JsonView::Null)
                    },
            ),
        ),
    }
}

impl View for Json {
    type V = JsonView;

    open spec fn view(&self) -> JsonView {
        json_view(*self)
    }
}

/// The elements of an array as text and numbers.
pub open spec fn element_views(s: Seq<Json>) -> Seq<JsonView> {
    s.map_values(|j: Json| j@)
}

/// The members of an object as text and numbers.
pub open spec fn member_views(s: Seq<(String, Json)>) -> Seq<(Seq<char>, JsonView)> {
    s.map_values(|p: (String, Json)| (p.0@, p.1@))
}

/// The view of an array or an object is that of its elements or members.
pub broadcast proof fn lemma_json_view(j: Json)
    ensures
        j matches Json::Array(v) ==> #[trigger] j@ == JsonView::Array(element_views(v@)),
        j matches Json::Object(v) ==> j@ == JsonView::Object(member_views(v@)),
{
    match j {
        Json::Array(v) => {
            reveal_with_fuel(json_view, 2);
            assert(j@->Array_0 =~= element_views(v@));
        },
        Json::Object(v) => {
            reveal_with_fuel(json_view, 2);
            assert(j@->Object_0 =~= member_views(v@));
        },
        _ => {},
    }
}

// --------------------------------------------------------------------- reading

/// The first member with a name.
pub open spec fn lookup(members: Seq<(Seq<char>, JsonView)>, key: Seq<char>) -> Option<JsonView>
    decreases members.len(),
{
    if members.len() == 0 {
        None
    } else if members[0].0 == key {
        Some(members[0].1)
    } else {
        lookup(members.skip(1), key)
    }
}

/// The member of a value with a name; a value that is no object has none.
pub open spec fn member(v: JsonView, key: Seq<char>) -> Option<JsonView> {
    match v {
        JsonView::Object(members) => lookup(members, key),
        _ => None,
    }
}

/// The text of a string value.
pub open spec fn string_in(v: Option<JsonView>) -> Option<Seq<char>> {
    match v {
        Some(JsonView::Str(s)) => Some(s),
        _ => None,
    }
}

/// The truth value of a boolean.
pub open spec fn bool_in(v: Option<JsonView>) -> Option<bool> {
    match v {
        Some(JsonView::Bool(b)) => Some(b),
        _ => None,
    }
}

/// The number of a non-negative integer.
pub open spec fn unsigned_in(v: Option<JsonView>) -> Option<u64> {
    match v {
        Some(JsonView::Number(JsonNumber::Unsigned(n))) => Some(n),
        _ => None,
    }
}

/// The elements of an array.
pub open spec fn array_in(v: Option<JsonView>) -> Option<Seq<JsonView>> {
    match v {
        Some(JsonView::Array(a)) => Some(a),
        _ => None,
    }
}

/// A value that may be absent.
pub open spec fn view_option(v: Option<&Json>) -> Option<JsonView> {
    match v {
        Some(j) => Some(j@),
        None => None,
    }
}

/// Where the first member with a name is.
pub fn find_member(members: &[(String, Json)], key: &str) -> (r: Option<usize>)
    ensures
        match r {
            Some(i) => i < members@.len() && members@[i as int].0@ == key@ && lookup(
                member_views(members@),
                key@,
            ) == Some(members@[i as int].1@) && forall|j: int|
                0 <= j < i ==> (#[trigger] members@[j]).0@ != key@,
            None => lookup(member_views(members@), key@) is None && forall|j: int|
                0 <= j < members@.len() ==> (#[trigger] members@[j]).0@ != key@,
        },
{
    let ghost all = member_views(members@);
    let mut i: usize = 0;
    assert(all.skip(0) == all);
    while i < members.len()
        invariant
            i <= members@.len(),
            all == member_views(members@),
            lookup(all, key@) == lookup(all.skip(i as int), key@),
            forall|j: int| 0 <= j < i ==> (#[trigger] members@[j]).0@ != key@,
        decreases members@.len() - i,
    {
        assert(all.skip(i as int).skip(1) == all.skip(i + 1));
        assert(all.skip(i as int)[0] == (members@[i as int].0@, members@[i as int].1@));
        if text::same_text(members[i].0.as_str(), key) {
            return Some(i);
        }
        i = i + 1;
    }
    None
}

impl Json {
    /// The member with a name.
    pub fn get(&self, key: &str) -> (r: Option<&Json>)
        ensures
            view_option(r) == member(self@, key@),
    {
        broadcast use lemma_json_view;

        match self {
            Json::Object(members) => match find_member(members.as_slice(), key) {
                Some(i) => Some(&members[i].1),
                None => None,
            },
            _ => None,
        }
    }

    /// The text of a string.
    pub fn as_str(&self) -> (r: Option<&String>)
        ensures
            match r {
                Some(s) => string_in(Some(self@)) == Some(s@),
                None => string_in(Some(self@)) is None,
            },
    {
        broadcast use lemma_json_view;

        match self {
            Json::Str(s) => Some(s),
            _ => None,
        }
    }

    /// The truth value of a boolean.
    pub fn as_bool(&self) -> (r: Option<bool>)
        ensures
            r == bool_in(Some(self@)),
    {
        broadcast use lemma_json_view;

        match self {
            Json::Bool(b) => Some(*b),
            _ => None,
        }
    }

    /// The number of a non-negative integer.
    pub fn as_u64(&self) -> (r: Option<u64>)
        ensures
            r == unsigned_in(Some(self@)),
    {
        broadcast use lemma_json_view;

        match self {
            Json::Number(JsonNumber::Unsigned(n)) => Some(*n),
            _ => None,
        }
    }

    /// The elements of an array.
    pub fn as_array(&self) -> (r: Option<&Vec<Json>>)
        ensures
            match r {
                Some(v) => array_in(Some(self@)) == Some(element_views(v@)),
                None => array_in(Some(self@)) is None,
            },
    {
        broadcast use lemma_json_view;

        match self {
            Json::Array(v) => Some(v),
            _ => None,
        }
    }

    /// The text of the member with a name, where it is a string.
    pub fn get_str(&self, key: &str) -> (r: Option<&String>)
        ensures
            match r {
                Some(s) => string_in(member(self@, key@)) == Some(s@),
                None => string_in(member(self@, key@)) is None,
            },
    {
        match self.get(key) {
            Some(v) => v.as_str(),
            None => None,
        }
    }

    /// The truth value of the member with a name, where it is a boolean.
    pub fn get_bool(&self, key: &str) -> (r: Option<bool>)
        ensures
            r == bool_in(member(self@, key@)),
    {
        match self.get(key) {
            Some(v) => v.as_bool(),
            None => None,
        }
    }

    /// The number of the member with a name, where it is a non-negative integer.
    pub fn get_u64(&self, key: &str) -> (r: Option<u64>)
        ensures
            r == unsigned_in(member(self@, key@)),
    {
        match self.get(key) {
            Some(v) => v.as_u64(),
            None => None,
        }
    }
}

// -------------------------------------------------------------------- building

/// A string value.
pub fn str_json(s: &str) -> (r: Json)
    ensures
        r@ == JsonView::Str(s@),
{
    Json::Str(String::from_str(s))
}

/// A signed integer as a value.
pub open spec fn signed_view(n: int) -> JsonView {
    JsonView::Number(
        if n >= 0 {
            JsonNumber::Unsigned(n as u64)
        } else {
            JsonNumber::Negative(n as i64)
        },
    )
}

/// A signed integer.
pub fn signed_json(n: i64) -> (r: Json)
    ensures
        r@ == signed_view(n as int),
{
    if n >= 0 {
        Json::Number(JsonNumber::Unsigned(n as u64))
    } else {
        Json::Number(JsonNumber::Negative(n))
    }
}

/// A text that may be absent, as a value: null where it is.
pub open spec fn nullable_view(s: Option<Seq<char>>) -> JsonView {
    match s {
        Some(t) => JsonView::Str(t),
        None => JsonView::Null,
    }
}

/// A text that may be absent.
pub fn nullable_json(s: Option<&str>) -> (r: Json)
    ensures
        r@ == nullable_view(
            match s {
                Some(t) => Some(t@),
                None => None,
            },
        ),
{
    match s {
        Some(t) => str_json(t),
        None => Json::Null,
    }
}

/// Texts as a value.
pub open spec fn text_list_view(s: Seq<Seq<char>>) -> JsonView {
    JsonView::Array(s.map_values(|t: Seq<char>| JsonView::Str(t)))
}

/// A list of texts.
pub fn text_list_json(s: &[String]) -> (r: Json)
    ensures
        r@ == text_list_view(text::string_texts(s@)),
{
    let ghost all = text::string_texts(s@).map_values(|t: Seq<char>| JsonView::Str(t));
    let mut out: Vec<Json> = Vec::new();
    assert(element_views(out@) =~= all.take(0));
    let mut i: usize = 0;
    while i < s.len()
        invariant
            i <= s@.len(),
            all == text::string_texts(s@).map_values(|t: Seq<char>| JsonView::Str(t)),
            element_views(out@) == all.take(i as int),
        decreases s@.len() - i,
    {
        let ghost before = element_views(out@);
        out.push(Json::Str(s[i].clone()));
        i = i + 1;
        assert(element_views(out@) =~= before.push(JsonView::Str(s@[i - 1]@)));
        assert(all.take(i as int) =~= all.take(i - 1).push(all[i - 1]));
    }
    assert(all.take(i as int) =~= all);
    let r = Json::Array(out);
    proof {
        lemma_json_view(r);
    }
    r
}

/// Appends a member to an object's.
pub fn put(members: &mut Vec<(String, Json)>, key: &str, value: Json)
    ensures
        member_views(final(members)@) == member_views(old(members)@).push((key@, value@)),
{
    let ghost before = member_views(members@);
    let ghost v = value@;
    members.push((String::from_str(key), value));
    assert(member_views(members@) =~= before.push((key@, v)));
}

/// A non-negative integer.
pub fn unsigned_json(n: u64) -> (r: Json)
    ensures
        r@ == JsonView::Number(JsonNumber::Unsigned(n)),
{
    Json::Number(JsonNumber::Unsigned(n))
}

/// The members with a name set to a value: in place where it is there, else at
/// the end.
pub open spec fn member_set(
    members: Seq<(Seq<char>, JsonView)>,
    key: Seq<char>,
    value: JsonView,
) -> Seq<(Seq<char>, JsonView)>
    decreases members.len(),
{
    if members.len() == 0 {
        seq![(key, value)]
    } else if members[0].0 == key {
        seq![(key, value)] + members.skip(1)
    } else {
        seq![members[0]] + member_set(members.skip(1), key, value)
    }
}

/// The members with a name set to a value where it is not there.
pub open spec fn member_defaulted(
    members: Seq<(Seq<char>, JsonView)>,
    key: Seq<char>,
    value: JsonView,
) -> Seq<(Seq<char>, JsonView)> {
    if lookup(members, key) is Some {
        members
    } else {
        members.push((key, value))
    }
}

/// Setting a member updates the first of its name, or appends it.
pub proof fn lemma_member_set(
    members: Seq<(Seq<char>, JsonView)>,
    key: Seq<char>,
    value: JsonView,
    i: int,
)
    requires
        0 <= i <= members.len(),
        forall|j: int| 0 <= j < i ==> (#[trigger] members[j]).0 != key,
        i < members.len() ==> members[i].0 == key,
    ensures
        member_set(members, key, value) == if i < members.len() {
            members.update(i, (key, value))
        } else {
            members.push((key, value))
        },
    decreases members.len(),
{
    if members.len() > 0 {
        if i == 0 {
            assert(members.update(0, (key, value)) =~= seq![(key, value)] + members.skip(1));
        } else {
            let rest = members.skip(1);
            assert forall|j: int| 0 <= j < i - 1 implies (#[trigger] rest[j]).0 != key by {
                assert(rest[j] == members[j + 1]);
            }
            assert(members[0].0 != key);
            lemma_member_set(rest, key, value, i - 1);
            if i < members.len() {
                assert(members.update(i, (key, value)) =~= seq![members[0]] + rest.update(
                    i - 1,
                    (key, value),
                ));
            } else {
                assert(members.push((key, value)) =~= seq![members[0]] + rest.push((key, value)));
            }
        }
    } else {
        assert(members.push((key, value)) =~= seq![(key, value)]);
    }
}

/// A member that was set is read back; other members are as they were.
pub proof fn law_set_member_is_read_back(
    members: Seq<(Seq<char>, JsonView)>,
    key: Seq<char>,
    value: JsonView,
    other: Seq<char>,
)
    requires
        other != key,
    ensures
        lookup(member_set(members, key, value), key) == Some(value),
        lookup(member_set(members, key, value), other) == lookup(members, other),
    decreases members.len(),
{
    let after = member_set(members, key, value);
    if members.len() > 0 {
        if members[0].0 == key {
            assert(after.skip(1) =~= members.skip(1));
        } else {
            law_set_member_is_read_back(members.skip(1), key, value, other);
            assert(after.skip(1) =~= member_set(members.skip(1), key, value));
        }
    } else {
        assert(after.skip(1) =~= Seq::<(Seq<char>, JsonView)>::empty());
        assert(lookup(after.skip(1), other) is None);
    }
}

/// A default does not change a member that is there, and no other member.
pub proof fn law_default_keeps_what_is_there(
    members: Seq<(Seq<char>, JsonView)>,
    key: Seq<char>,
    value: JsonView,
    other: Seq<char>,
)
    requires
        other != key,
    ensures
        lookup(member_defaulted(members, key, value), key) == (match lookup(members, key) {
            Some(v) => Some(v),
            None => Some(value),
        }),
        lookup(member_defaulted(members, key, value), other) == lookup(members, other),
{
    lemma_lookup_push(members, key, value, key);
    lemma_lookup_push(members, key, value, other);
}

proof fn lemma_lookup_push(
    members: Seq<(Seq<char>, JsonView)>,
    key: Seq<char>,
    value: JsonView,
    wanted: Seq<char>,
)
    ensures
        lookup(members.push((key, value)), wanted) == (match lookup(members, wanted) {
            Some(v) => Some(v),
            None => if wanted == key {
                Some(value)
            } else {
                None
            },
        }),
    decreases members.len(),
{
    let after = members.push((key, value));
    if members.len() > 0 {
        lemma_lookup_push(members.skip(1), key, value, wanted);
        assert(after.skip(1) =~= members.skip(1).push((key, value)));
    } else {
        assert(after.skip(1) =~= Seq::<(Seq<char>, JsonView)>::empty());
        assert(lookup(after.skip(1), wanted) is None);
    }
}

/// Sets a member.
pub fn set_member(members: &mut Vec<(String, Json)>, key: &str, value: Json)
    ensures
        member_views(final(members)@) == member_set(member_views(old(members)@), key@, value@),
{
    let ghost before = member_views(members@);
    let ghost shown = value@;
    let name = String::from_str(key);
    match find_member(members.as_slice(), key) {
        Some(i) => {
            proof {
                lemma_member_set(before, key@, shown, i as int);
            }
            members.set(i, (name, value));
            assert(member_views(members@) =~= before.update(i as int, (key@, shown)));
        },
        None => {
            proof {
                lemma_member_set(before, key@, shown, before.len() as int);
            }
            members.push((name, value));
            assert(member_views(members@) =~= before.push((key@, shown)));
        },
    }
}

/// Sets a member where it is not there.
pub fn default_member(members: &mut Vec<(String, Json)>, key: &str, value: Json)
    ensures
        member_views(final(members)@) == member_defaulted(
            member_views(old(members)@),
            key@,
            value@,
        ),
{
    let ghost before = member_views(members@);
    let ghost shown = value@;
    if find_member(members.as_slice(), key).is_none() {
        members.push((String::from_str(key), value));
        assert(member_views(members@) =~= before.push((key@, shown)));
    }
}

/// Copies a value.
#[verifier::loop_isolation(false)]
pub fn copy_json(j: &Json) -> (r: Json)
    ensures
        r@ == j@,
    decreases *j,
{
    broadcast use lemma_json_view;

    match j {
        Json::Null => Json::Null,
        Json::Bool(b) => Json::Bool(*b),
        Json::Number(n) => Json::Number(*n),
        Json::Str(s) => Json::Str(s.clone()),
        Json::Array(v) => {
            let mut out: Vec<Json> = Vec::new();
            let mut i: usize = 0;
            while i < v.len()
                invariant
                    i <= v@.len(),
                    *j == Json::Array(*v),
                    element_views(out@) == element_views(v@).take(i as int),
                decreases v@.len() - i,
            {
                let ghost before = element_views(out@);
                assert(decreases_to!(*v => v@[i as int]));
                let c = copy_json(&v[i]);
                out.push(c);
                i = i + 1;
                assert(element_views(out@) =~= before.push(v@[i - 1]@));
                assert(element_views(v@).take(i as int) =~= element_views(v@).take(i - 1).push(
                    v@[i - 1]@,
                ));
            }
            assert(element_views(v@).take(i as int) =~= element_views(v@));
            Json::Array(out)
        },
        Json::Object(v) => {
            let mut out: Vec<(String, Json)> = Vec::new();
            let mut i: usize = 0;
            while i < v.len()
                invariant
                    i <= v@.len(),
                    *j == Json::Object(*v),
                    member_views(out@) == member_views(v@).take(i as int),
                decreases v@.len() - i,
            {
                let ghost before = member_views(out@);
                assert(decreases_to!(*v => v@[i as int]));
                let c = copy_json(&v[i].1);
                let name = v[i].0.clone();
                out.push((name, c));
                i = i + 1;
                assert(member_views(out@) =~= before.push((v@[i - 1].0@, v@[i - 1].1@)));
                assert(member_views(v@).take(i as int) =~= member_views(v@).take(i - 1).push(
                    (v@[i - 1].0@, v@[i - 1].1@),
                ));
            }
            assert(member_views(v@).take(i as int) =~= member_views(v@));
            Json::Object(out)
        },
    }
}

// --------------------------------------------------------------------- parsing

/// A value of the `serde_json` crate.
#[verifier::external_type_specification]
#[verifier::external_body]
pub struct ExValue(serde_json::Value);

/// What `serde_json` reads from bytes: a value, or the text of its error.
pub uninterp spec fn value_read(bytes: Seq<u8>) -> Result<Value, Seq<char>>;

/// What a value of `serde_json` holds.
pub uninterp spec fn value_held(v: Value) -> JsonView;

/// `serde_json::from_slice` into a `Value`: the value that the bytes spell, or an
/// error whose text is kept. Both depend on the bytes alone.
#[verifier::external_body]
fn read_value(bytes: &[u8]) -> (r: Result<Value, String>)
    ensures
        match r {
            Ok(v) => value_read(bytes@) == Ok::<Value, Seq<char>>(v),
            Err(e) => value_read(bytes@) == Err::<Value, Seq<char>>(e@),
        },
{
    match serde_json::from_slice::<Value>(bytes) {
        Ok(v) => Ok(v),
        Err(e) => Err(e.to_string()),
    }
}

/// A `serde_json::Value` taken apart by its variants. An integer that is not
/// negative, one that is, and a float are told apart as `as_u64`, `as_i64` and
/// `as_f64` do.
#[verifier::external_body]
fn take_value(v: Value) -> (r: Json)
    ensures
        r@ == value_held(v),
{
    match v {
        Value::Null => Json::Null,
        Value::Bool(b) => Json::Bool(b),
        Value::Number(n) => Json::Number(match (n.as_u64(), n.as_i64()) {
            (Some(u), _) => JsonNumber::Unsigned(u),
            (None, Some(i)) => JsonNumber::Negative(i),
            (None, None) => JsonNumber::Float(n.as_f64().unwrap_or_default().to_bits()),
        }),
        Value::String(s) => Json::Str(s),
        Value::Array(a) => Json::Array(a.into_iter().map(take_value).collect()),
        Value::Object(m) => {
            Json::Object(m.into_iter().map(|(k, w)| (k, take_value(w))).collect())
        },
    }
}

/// The JSON value that bytes spell, or the text of the error.
pub open spec fn json_of(bytes: Seq<u8>) -> Result<JsonView, Seq<char>> {
    match value_read(bytes) {
        Ok(v) => Ok(value_held(v)),
        Err(e) => Err(e),
    }
}

/// Parses JSON.
pub fn parse_json(bytes: &[u8]) -> (r: Result<Json, String>)
    ensures
        match r {
            Ok(j) => json_of(bytes@) matches Ok(v) && v == j@,
            Err(e) => json_of(bytes@) matches Err(t) && t == e@,
        },
{
    match read_value(bytes) {
        Ok(v) => Ok(take_value(v)),
        Err(e) => Err(e),
    }
}

} // verus!

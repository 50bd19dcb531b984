//! What holds of reading a Modelfile: each directive, its value, and blocks.
use crate::registry::modelfile;
use crate::registry::modelfile::{ModelfileView, ParseState};
use crate::text;
use crate::text_laws;
use vstd::prelude::*;

verus! {

/// A word of ASCII letters.
pub open spec fn is_ascii_letters(s: Seq<char>) -> bool {
    s.len() > 0 && forall|i: int|
        0 <= i < s.len() ==> 'a' <= #[trigger] s[i] <= 'z' || 'A' <= s[i] <= 'Z'
}

/// A value that stands on its line as it is: with no space around it and no quotes.
pub open spec fn is_bare_value(v: Seq<char>) -> bool {
    v.len() > 0 && text_laws::is_tight(v) && v[0] != '"' && v[0] != '\''
}

proof fn lemma_space_is_at(s: Seq<char>, i: int, at: int)
    requires
        0 <= i <= at < s.len(),
        text::is_space(s[at]),
        forall|j: int| i <= j < at ==> !text::is_space(#[trigger] s[j]),
    ensures
        text::space_from(s, i) == Some(at),
    decreases at - i,
{
    if i < at {
        assert(!text::is_space(s[i]));
        lemma_space_is_at(s, i + 1, at);
    }
}

proof fn lemma_letters_are_no_space(s: Seq<char>)
    requires
        is_ascii_letters(s),
    ensures
        forall|j: int| 0 <= j < s.len() ==> !text::is_space(#[trigger] s[j]),
        text::is_ascii_text(s),
        s[0] != '#',
{
    assert forall|j: int| 0 <= j < s.len() implies !text::is_space(#[trigger] s[j]) by {
        assert('a' <= s[j] <= 'z' || 'A' <= s[j] <= 'Z');
    }
    assert('a' <= s[0] <= 'z' || 'A' <= s[0] <= 'Z');
}

/// The first word of a text and the rest behind it.
proof fn lemma_split(word: Seq<char>, rest: Seq<char>)
    requires
        is_ascii_letters(word),
    ensures
        text::split_at_space(word + " "@ + rest) == Some((word, rest)),
{
    reveal_strlit(" ");
    let s = word + " "@ + rest;
    let n = word.len() as int;
    lemma_letters_are_no_space(word);
    assert forall|j: int| 0 <= j < n implies !text::is_space(#[trigger] s[j]) by {
        assert(s[j] == word[j]);
    }
    lemma_space_is_at(s, 0, n);
    assert(s.take(n) =~= word);
    assert(s.skip(n + 1) =~= rest);
}

/// A line that holds a directive and a value is taken as that directive, in any case,
/// with exactly that value: plain, or between quotes.
pub proof fn law_directive_is_taken_with_its_value(
    st: ParseState,
    word: Seq<char>,
    value: Seq<char>,
)
    requires
        st.open is None,
        is_ascii_letters(word),
        is_bare_value(value),
    ensures
        ({
            let plain = modelfile::line_taken(st, word + " "@ + value);
            &&& plain.open is None
            &&& plain.taken == modelfile::applied(st.taken, text::ascii_upper(word), value)
        }),
        ({
            let quoted = modelfile::line_taken(st, word + " "@ + (seq!['"'] + value + seq!['"']));
            &&& quoted.open is None
            &&& quoted.taken == modelfile::applied(st.taken, text::ascii_upper(word), value)
        }),
{
    lemma_directive(st, word, value, value);
    modelfile::law_quoted_value_is_the_value(value);
    let q = seq!['"'] + value + seq!['"'];
    assert(q[0] == '"' && q.last() == '"');
    assert(q[1] == value[0]);
    text_laws::lemma_tight_is_trimmed(value);
    lemma_directive(st, word, q, value);
}

proof fn lemma_directive(st: ParseState, word: Seq<char>, written: Seq<char>, value: Seq<char>)
    requires
        st.open is None,
        is_ascii_letters(word),
        written.len() > 0,
        text_laws::is_tight(written),
        written.len() > 1 && written[0] == '"' ==> written[1] != '"',
        (modelfile::unquoted(written) == value) || (written == value && is_bare_value(value)),
    ensures
        ({
            let after = modelfile::line_taken(st, word + " "@ + written);
            &&& after.open is None
            &&& after.taken == modelfile::applied(st.taken, text::ascii_upper(word), value)
        }),
{
    reveal_strlit(" ");
    reveal_strlit("\"\"\"");
    let line = word + " "@ + written;
    let none = Seq::<char>::empty();
    lemma_letters_are_no_space(word);
    assert(line[0] == word[0]);
    assert(line.last() == written.last());
    text_laws::law_trimming_gives_the_core(none, line, none);
    assert(none + line + none =~= line);
    assert(line + none =~= line);
    text::lemma_trimmed_end(line);
    assert(text::trimmed_end(line) == line) by {
        text_laws::lemma_tight_is_trimmed(line);
        assert(text::trimmed(line) == text::trimmed_end(text::trimmed_start(line)));
    }
    lemma_split(word, written);
    text_laws::lemma_tight_is_trimmed(written);
    if "\"\"\""@.is_prefix_of(written) {
        assert(written.subrange(0, 3)[0] == written[0]);
        assert(written.subrange(0, 3)[1] == written[1]);
    }
    if written == value && is_bare_value(value) {
        assert(modelfile::unquoted(value) == value);
    }
}

/// What each directive sets, and that it sets nothing else: the base model, the system
/// text and the template are the value; a parameter and a message are added behind those
/// that are there; a directive of another name changes nothing.
pub proof fn law_directives_set_their_own_field(
    mf: ModelfileView,
    value: Seq<char>,
    key: Seq<char>,
    rest: Seq<char>,
    other: Seq<char>,
)
    requires
        is_ascii_letters(key),
        rest.len() > 0,
        text_laws::is_tight(rest),
        rest[0] != '"' && rest[0] != '\'',
        other != "FROM"@ && other != "SYSTEM"@ && other != "TEMPLATE"@ && other != "PARAMETER"@
            && other != "MESSAGE"@,
    ensures
        modelfile::applied(mf, "FROM"@, value) == (ModelfileView { from: Some(value), ..mf }),
        modelfile::applied(mf, "SYSTEM"@, value) == (ModelfileView { system: Some(value), ..mf }),
        modelfile::applied(mf, "TEMPLATE"@, value) == (ModelfileView {
            template: Some(value),
            ..mf
        }),
        modelfile::applied(mf, "PARAMETER"@, key + " "@ + rest) == (ModelfileView {
            parameters: mf.parameters.push((text::ascii_lower(key), rest)),
            ..mf
        }),
        modelfile::applied(mf, "MESSAGE"@, key + " "@ + rest) == (ModelfileView {
            messages: mf.messages.push(
                crate::api::types::MessageView { role: text::ascii_lower(key), content: rest },
            ),
            ..mf
        }),
        modelfile::applied(mf, other, value) == mf,
{
    reveal_strlit("FROM");
    reveal_strlit("SYSTEM");
    reveal_strlit("TEMPLATE");
    reveal_strlit("PARAMETER");
    reveal_strlit("MESSAGE");
    assert("FROM"@.len() == 4 && "SYSTEM"@.len() == 6 && "TEMPLATE"@.len() == 8 && "PARAMETER"@.len()
        == 9 && "MESSAGE"@.len() == 7);
    lemma_split(key, rest);
    lemma_letters_are_no_space(key);
    text_laws::lemma_tight_is_trimmed(key);
    text_laws::lemma_tight_is_trimmed(rest);
    assert(modelfile::unquoted(rest) == rest);
}

/// Lines are taken one after the other.
pub proof fn law_lines_are_taken_in_order(st: ParseState, a: Seq<Seq<char>>, b: Seq<Seq<char>>)
    ensures
        modelfile::lines_taken(st, a + b) == modelfile::lines_taken(
            modelfile::lines_taken(st, a),
            b,
        ),
        b.len() == 1 ==> modelfile::lines_taken(st, b) == modelfile::line_taken(st, b[0]),
    decreases b.len(),
{
    if b.len() == 0 {
        assert(a + b =~= a);
    } else {
        assert((a + b).drop_last() =~= a + b.drop_last());
        assert((a + b).last() == b.last());
        law_lines_are_taken_in_order(st, a, b.drop_last());
        if b.len() == 1 {
            assert(b.drop_last() =~= Seq::<Seq<char>>::empty());
            assert(modelfile::lines_taken(st, b.drop_last()) == st);
        }
    }
}

/// A block between triple quotes is taken whole, over all its lines: what stands behind
/// the opening quotes, each line between, and what stands before the closing ones.
pub proof fn law_block_is_taken_whole(
    st: ParseState,
    word: Seq<char>,
    first: Seq<char>,
    middle: Seq<char>,
    last: Seq<char>,
)
    requires
        st.open is None,
        is_ascii_letters(word),
        first.len() > 0 && text_laws::is_tight(first) && !first.contains('"'),
        middle.len() > 0 && text_laws::is_tight(middle) && !middle.contains('"'),
        last.len() > 0 && text_laws::is_tight(last) && !last.contains('"'),
    ensures
        ({
            let after = modelfile::lines_taken(
                st,
                seq![word + " "@ + ("\"\"\""@ + first), middle, last + "\"\"\""@],
            );
            &&& after.open is None
            &&& after.taken == modelfile::applied(
                st.taken,
                text::ascii_upper(word),
                first + "\n"@ + middle + "\n"@ + last,
            )
        }),
{
    reveal_strlit("\"\"\"");
    reveal_strlit("\n");
    reveal_strlit(" ");
    let quotes = "\"\"\""@;
    let none = Seq::<char>::empty();
    let l1 = word + " "@ + (quotes + first);
    let l3 = last + quotes;
    let lines = seq![l1, middle, l3];
    assert(lines =~= seq![l1] + (seq![middle] + seq![l3]));
    law_lines_are_taken_in_order(st, seq![l1], seq![middle] + seq![l3]);
    law_lines_are_taken_in_order(st, none_lines(), seq![l1]);
    let s1 = modelfile::line_taken(st, l1);
    law_lines_are_taken_in_order(s1, seq![middle], seq![l3]);
    law_lines_are_taken_in_order(s1, none_lines(), seq![middle]);
    lemma_block_opens(st, word, first);
    let d = text::ascii_upper(word);
    let b1 = first.push('\n');
    assert(s1.open == Some((d, b1)));
    lemma_tight_end(middle);
    lemma_no_quotes(middle);
    let s2 = modelfile::line_taken(s1, middle);
    let b2 = (b1 + middle).push('\n');
    assert(s2.open == Some((d, b2)));
    law_lines_are_taken_in_order(s2, none_lines(), seq![l3]);
    assert(l3[0] == last[0]);
    assert(l3.last() == '"');
    lemma_tight_end(l3);
    let n = last.len() as int;
    assert(l3.subrange(n, n + 3) =~= quotes);
    assert forall|j: int| 0 <= j < n implies !text::occurs_at(l3, quotes, j) by {
        if text::occurs_at(l3, quotes, j) {
            assert(l3.subrange(j, j + 3)[0] == l3[j]);
            assert(l3[j] == last[j]);
            assert(last.contains(last[j]));
        }
    }
    text_laws::lemma_text_is_at(l3, quotes, 0, n);
    assert(l3.take(n) =~= last);
    let all = first + "\n"@ + middle + "\n"@ + last;
    assert(b2 + last =~= all);
    assert(all[0] == first[0]);
    assert(all.last() == last.last());
    text_laws::lemma_tight_is_trimmed(all);
}

spec fn none_lines() -> Seq<Seq<char>> {
    Seq::empty()
}

proof fn lemma_tight_end(s: Seq<char>)
    requires
        s.len() > 0,
        text_laws::is_tight(s),
    ensures
        text::trimmed_end(s) == s,
{
    text_laws::lemma_tight_is_trimmed(s);
}

proof fn lemma_no_quotes(s: Seq<char>)
    requires
        !s.contains('"'),
    ensures
        text::occurrence_from(s, "\"\"\""@, 0) is None,
{
    reveal_strlit("\"\"\"");
    text::lemma_occurrence_from(s, "\"\"\""@, 0);
    if let Some(k) = text::occurrence_from(s, "\"\"\""@, 0) {
        assert(s.subrange(k, k + 3)[0] == s[k]);
        assert(s.contains(s[k]));
    }
}

proof fn lemma_block_opens(st: ParseState, word: Seq<char>, first: Seq<char>)
    requires
        st.open is None,
        is_ascii_letters(word),
        first.len() > 0 && text_laws::is_tight(first) && !first.contains('"'),
    ensures
        ({
            let after = modelfile::line_taken(st, word + " "@ + ("\"\"\""@ + first));
            &&& after.open == Some((text::ascii_upper(word), first.push('\n')))
            &&& after.taken == st.taken
        }),
{
    reveal_strlit("\"\"\"");
    reveal_strlit(" ");
    let written = "\"\"\""@ + first;
    let line = word + " "@ + written;
    lemma_letters_are_no_space(word);
    assert(line[0] == word[0]);
    assert(written.last() == first.last());
    assert(line.last() == written.last());
    lemma_tight_end(line);
    text_laws::lemma_tight_is_trimmed(line);
    lemma_split(word, written);
    assert(written[0] == '"');
    text_laws::lemma_tight_is_trimmed(written);
    assert(written.subrange(0, 3) =~= "\"\"\""@);
    assert(written.skip(3) =~= first);
    lemma_no_quotes(first);
}

/// A block that opens and closes on one line is taken with what stands between its
/// quotes.
pub proof fn law_block_on_one_line_is_taken(st: ParseState, word: Seq<char>, body: Seq<char>)
    requires
        st.open is None,
        is_ascii_letters(word),
        body.len() > 0 && text_laws::is_tight(body) && !body.contains('"'),
    ensures
        ({
            let after = modelfile::line_taken(
                st,
                word + " "@ + ("\"\"\""@ + body + "\"\"\""@),
            );
            &&& after.open is None
            &&& after.taken == modelfile::applied(st.taken, text::ascii_upper(word), body)
        }),
{
    reveal_strlit("\"\"\"");
    reveal_strlit(" ");
    let quotes = "\"\"\""@;
    let written = quotes + body + quotes;
    let line = word + " "@ + written;
    let n = body.len() as int;
    lemma_letters_are_no_space(word);
    assert(line[0] == word[0]);
    assert(written[0] == '"' && written.last() == '"' && line.last() == '"');
    lemma_tight_end(line);
    text_laws::lemma_tight_is_trimmed(line);
    lemma_split(word, written);
    text_laws::lemma_tight_is_trimmed(written);
    assert(written.subrange(0, 3) =~= quotes);
    let rest = written.skip(3);
    assert(rest =~= body + quotes);
    assert(rest.subrange(n, n + 3) =~= quotes);
    assert forall|j: int| 0 <= j < n implies !text::occurs_at(rest, quotes, j) by {
        if text::occurs_at(rest, quotes, j) {
            assert(rest.subrange(j, j + 3)[0] == rest[j]);
            assert(rest[j] == body[j]);
            assert(body.contains(body[j]));
        }
    }
    text_laws::lemma_text_is_at(rest, quotes, 0, n);
    assert(rest.take(n) =~= body);
    text_laws::lemma_tight_is_trimmed(body);
}

} // verus!

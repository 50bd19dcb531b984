//! What holds of texts: trimming, searching and cutting.
use crate::text;
use vstd::prelude::*;

verus! {

/// Every character is white space.
pub open spec fn all_space(s: Seq<char>) -> bool {
    forall|i: int| 0 <= i < s.len() ==> text::is_space(#[trigger] s[i])
}

/// A text that neither begins nor ends with white space.
pub open spec fn is_tight(s: Seq<char>) -> bool {
    s.len() > 0 ==> !text::is_space(s[0]) && !text::is_space(s.last())
}

/// Trimming takes the white space around a text off, and nothing of the text.
pub proof fn law_trimming_gives_the_core(before: Seq<char>, core: Seq<char>, after: Seq<char>)
    requires
        all_space(before),
        all_space(after),
        is_tight(core),
        core.len() > 0,
    ensures
        text::trimmed(before + core + after) == core,
        text::trimmed_start(before + core + after) == core + after,
{
    let s = before + core + after;
    assert forall|i: int| 0 <= i < before.len() implies text::is_space(s[i]) by {
        assert(s[i] == before[i]);
    }
    assert(s[before.len() as int] == core[0]);
    text::lemma_leading_spaces_unique(s, before.len() as int);
    assert(text::trimmed_start(s) =~= core + after);
    lemma_trimmed_end_of(core, after);
}

/// A text of white space alone is trimmed to nothing.
pub proof fn law_blank_text_is_trimmed_away(s: Seq<char>)
    requires
        all_space(s),
    ensures
        text::trimmed(s) == Seq::<char>::empty(),
{
    text::lemma_leading_spaces_unique(s, s.len() as int);
    assert(text::trimmed_start(s) =~= Seq::<char>::empty());
}

proof fn lemma_trimmed_end_of(core: Seq<char>, after: Seq<char>)
    requires
        all_space(after),
        core.len() > 0,
        !text::is_space(core.last()),
    ensures
        text::trimmed_end(core + after) == core,
    decreases after.len(),
{
    let s = core + after;
    if after.len() == 0 {
        assert(s =~= core);
    } else {
        assert(s.last() == after.last());
        assert(text::is_space(after[after.len() - 1]));
        assert(s.drop_last() =~= core + after.drop_last());
        assert forall|i: int| 0 <= i < after.drop_last().len() implies text::is_space(
            #[trigger] after.drop_last()[i],
        ) by {
            assert(after[i] == after.drop_last()[i]);
        }
        lemma_trimmed_end_of(core, after.drop_last());
    }
}

/// A text without white space around it is its own trimmed form.
pub proof fn lemma_tight_is_trimmed(s: Seq<char>)
    requires
        is_tight(s),
    ensures
        text::trimmed(s) == s,
        text::trimmed_start(s) == s,
{
    let none = Seq::<char>::empty();
    if s.len() > 0 {
        law_trimming_gives_the_core(none, s, none);
        assert(none + s + none =~= s);
        assert(s + none =~= s);
    } else {
        law_blank_text_is_trimmed_away(s);
        assert(s =~= none);
        text::lemma_leading_spaces(s);
        assert(text::trimmed_start(s) =~= none);
    }
}

/// The search for a character ends at its first place.
pub proof fn lemma_char_is_at(s: Seq<char>, c: char, from: int, at: int)
    requires
        0 <= from <= at < s.len(),
        s[at] == c,
        forall|j: int| from <= j < at ==> s[j] != c,
    ensures
        text::char_from(s, c, from) == Some(at),
{
    text::lemma_char_from(s, c, from);
}

/// The search for a text ends at its first place.
pub proof fn lemma_text_is_at(s: Seq<char>, pat: Seq<char>, from: int, at: int)
    requires
        0 <= from <= at,
        text::occurs_at(s, pat, at),
        forall|j: int| from <= j < at ==> !text::occurs_at(s, pat, j),
    ensures
        text::occurrence_from(s, pat, from) == Some(at),
{
    text::lemma_occurrence_from(s, pat, from);
}

/// Lines end at line ends, and a carriage return before one belongs to it; what stands
/// behind the last line end is a line too, unless it is empty.
pub proof fn law_lines_end_at_line_ends(line: Seq<char>, rest: Seq<char>)
    requires
        !line.contains('\n'),
    ensures
        text::lines_of(line.push('\r').push('\n') + rest) == seq![line] + text::lines_of(rest),
        line.len() > 0 && line.last() == '\r' || text::lines_of(line.push('\n') + rest) == seq![line]
            + text::lines_of(rest),
        line.len() > 0 ==> text::lines_of(line) == seq![line],
        text::lines_of(Seq::empty()) == Seq::<Seq<char>>::empty(),
{
    let n = line.len() as int;
    let a = line.push('\n') + rest;
    assert forall|j: int| 0 <= j < n implies line[j] != '\n' by {
        assert(line.contains(line[j]));
    }
    assert(a[n] == '\n');
    lemma_char_is_at(a, '\n', 0, n);
    assert(a.take(n) =~= line);
    assert(a.skip(n + 1) =~= rest);
    let b = line.push('\r').push('\n') + rest;
    assert(b[n + 1] == '\n');
    lemma_char_is_at(b, '\n', 0, n + 1);
    assert(b.take(n + 1) =~= line.push('\r'));
    assert(line.push('\r').drop_last() =~= line);
    assert(b.skip(n + 2) =~= rest);
    text::lemma_char_from(line, '\n', 0);
}

/// Replacing changes the first place of the pattern, and goes on behind it; a text
/// without the pattern stays as it is.
pub proof fn law_replacing_goes_from_left_to_right(
    front: Seq<char>,
    pat: Seq<char>,
    rest: Seq<char>,
    with: Seq<char>,
)
    requires
        pat.len() > 0,
        forall|i: int| 0 <= i < front.len() ==> !text::occurs_at(front + pat + rest, pat, i),
    ensures
        text::replaced(front + pat + rest, pat, with) == front + with + text::replaced(
            rest,
            pat,
            with,
        ),
{
    let s = front + pat + rest;
    let n = front.len() as int;
    assert(s.subrange(n, n + pat.len()) =~= pat);
    assert(text::occurs_at(s, pat, n));
    lemma_text_is_at(s, pat, 0, n);
    assert(s.take(n) =~= front);
    assert(s.skip(n + pat.len()) =~= rest);
}

/// A text in which the pattern does not stand is not changed.
pub proof fn law_replacing_leaves_the_rest(s: Seq<char>, pat: Seq<char>, with: Seq<char>)
    requires
        !text::contains_text(s, pat),
    ensures
        text::replaced(s, pat, with) == s,
{
    text::lemma_contains_text(s, pat);
}

/// Replacing characters changes those of the set, each on its own, and no other.
pub proof fn law_characters_are_replaced_one_by_one(
    s: Seq<char>,
    c: char,
    set: Seq<char>,
    with: Seq<char>,
)
    ensures
        text::replaced_chars(s.push(c), set, with) == text::replaced_chars(s, set, with) + (
        if set.contains(c) {
            with
        } else {
            seq![c]
        }),
        text::replaced_chars(Seq::empty(), set, with) == Seq::<char>::empty(),
{
    assert(s.push(c).drop_last() =~= s);
}

/// A letter of the ASCII alphabet and its other case are 32 apart; no other character has
/// one.
pub proof fn law_cases_of_ascii_letters(c: char)
    ensures
        'a' <= c <= 'z' ==> text::ascii_upper_char(c) as u32 == c as u32 - 32
            && text::ascii_lower_char(text::ascii_upper_char(c)) == c,
        'A' <= c <= 'Z' ==> text::ascii_lower_char(c) as u32 == c as u32 + 32
            && text::ascii_upper_char(text::ascii_lower_char(c)) == c,
        !('a' <= c <= 'z') ==> text::ascii_upper_char(c) == c,
        !('A' <= c <= 'Z') ==> text::ascii_lower_char(c) == c,
{
}

/// A text is changed to another case character by character.
pub proof fn law_case_is_changed_character_by_character(s: Seq<char>, i: int)
    requires
        0 <= i < s.len(),
    ensures
        text::ascii_upper(s).len() == s.len(),
        text::ascii_lower(s).len() == s.len(),
        text::ascii_upper(s)[i] == text::ascii_upper_char(s[i]),
        text::ascii_lower(s)[i] == text::ascii_lower_char(s[i]),
{
}

/// The space, the tab and the ends of lines are white space; letters, digits and
/// punctuation are none.
pub proof fn law_white_space(c: char)
    ensures
        c == ' ' || c == '\t' || c == '\n' || c == '\r' ==> text::is_space(c),
        '!' <= c <= '~' ==> !text::is_space(c),
{
}

} // verus!

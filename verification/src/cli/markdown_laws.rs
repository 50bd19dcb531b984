//! What holds of Markdown lines: how each kind is shown, whole and as it streams in.
use crate::cli::render;
use crate::cli::render::StreamState;
use crate::cli::render_laws;
use crate::cli::style::{BOLD, CYAN, DIM, GREEN, ITALIC, MAGENTA, RESET};
use crate::number;
use crate::text;
use crate::text_laws;
use vstd::prelude::*;

verus! {

// --------------------------------------------------------------------- whole lines

proof fn lemma_head(indent: Seq<char>, mark: Seq<char>, rest: Seq<char>)
    requires
        text_laws::all_space(indent),
        mark.len() > 0,
        !text::is_space(mark[0]),
    ensures
        ({
            let line = indent + mark + rest;
            &&& text::trimmed_start(line) == mark + rest
            &&& text::leading_spaces(line) == indent.len()
            &&& line.take(indent.len() as int) == indent
            &&& mark.is_prefix_of(mark + rest)
            &&& (mark + rest).skip(mark.len() as int) == rest
            &&& (mark + rest)[0] == mark[0]
        }),
{
    let line = indent + mark + rest;
    assert forall|i: int| 0 <= i < indent.len() implies text::is_space(line[i]) by {
        assert(line[i] == indent[i]);
    }
    assert(line[indent.len() as int] == mark[0]);
    text::lemma_leading_spaces_unique(line, indent.len() as int);
    assert(line.skip(indent.len() as int) =~= mark + rest);
    assert(line.take(indent.len() as int) =~= indent);
    assert((mark + rest).subrange(0, mark.len() as int) =~= mark);
    assert((mark + rest).skip(mark.len() as int) =~= rest);
}

/// A text that differs at one place does not begin so.
pub proof fn lemma_no_prefix(p: Seq<char>, t: Seq<char>, i: int)
    requires
        0 <= i < p.len(),
        i < t.len() ==> t[i] != p[i],
    ensures
        !p.is_prefix_of(t),
        p != t,
{
    if p.is_prefix_of(t) {
        assert(t.subrange(0, p.len() as int)[i] == t[i]);
    }
}

/// An item of an ordered list is shown with its own number, in green, before its text.
pub proof fn law_numbered_item_keeps_its_number(
    indent: Seq<char>,
    digits: Seq<char>,
    rest: Seq<char>,
)
    requires
        text_laws::all_space(indent),
        digits.len() > 0,
        number::all_digits(digits),
    ensures
        render::line_of(indent + digits + ". "@ + rest) == indent + GREEN@ + digits + "."@ + RESET@
            + " "@ + render::inline_of(rest),
        render::prefix_of(indent + digits + ". "@ + rest) == (
            indent + GREEN@ + digits + "."@ + RESET@ + " "@,
            (indent.len() + digits.len() + 2) as int,
        ),
{
    reveal_strlit(". ");
    let more = ". "@ + rest;
    let line = indent + digits + ". "@ + rest;
    assert(line =~= indent + digits + more);
    assert(number::is_digit(digits[0]));
    lemma_head(indent, digits, more);
    let t = digits + more;
    lemma_starts_with_digit(t);
    lemma_number_ends(digits, rest);
    let n = digits.len() as int;
    assert(t.take(n) =~= digits);
    assert(t.skip(n + 2) =~= rest);
}

proof fn lemma_number_ends(digits: Seq<char>, rest: Seq<char>)
    requires
        digits.len() > 0,
        number::all_digits(digits),
    ensures
        text::occurrence_from(digits + (". "@ + rest), ". "@, 0) == Some(digits.len() as int),
{
    reveal_strlit(". ");
    let t = digits + (". "@ + rest);
    let n = digits.len() as int;
    assert(t.subrange(n, n + 2) =~= ". "@);
    assert forall|j: int| 0 <= j < n implies !text::occurs_at(t, ". "@, j) by {
        if text::occurs_at(t, ". "@, j) {
            assert(t.subrange(j, j + 2)[0] == t[j]);
            assert(t[j] == digits[j]);
            assert(number::is_digit(digits[j]));
        }
    }
    text_laws::lemma_text_is_at(t, ". "@, 0, n);
}

/// A line that starts with a digit is no heading, rule, quote, bullet or block.
proof fn lemma_starts_with_digit(t: Seq<char>)
    requires
        t.len() > 0,
        number::is_digit(t[0]),
    ensures
        !"#### "@.is_prefix_of(t) && !"### "@.is_prefix_of(t) && !"## "@.is_prefix_of(t)
            && !"# "@.is_prefix_of(t) && !"> "@.is_prefix_of(t),
        t != "---"@ && t != "***"@ && t != "___"@,
        !render::bulleted(t),
        !render::whole_line(t),
        !"\\["@.is_prefix_of(t) && !"```"@.is_prefix_of(t),
        t != "\\["@ && t != "$$"@,
{
    lemma_reveal_marks();
    lemma_no_prefix("#### "@, t, 0);
    lemma_no_prefix("### "@, t, 0);
    lemma_no_prefix("## "@, t, 0);
    lemma_no_prefix("# "@, t, 0);
    lemma_no_prefix("#"@, t, 0);
    lemma_no_prefix("> "@, t, 0);
    lemma_no_prefix("---"@, t, 0);
    lemma_no_prefix("***"@, t, 0);
    lemma_no_prefix("___"@, t, 0);
    lemma_no_prefix("- "@, t, 0);
    lemma_no_prefix("* "@, t, 0);
    lemma_no_prefix("+ "@, t, 0);
    lemma_no_prefix("\\["@, t, 0);
    lemma_no_prefix("```"@, t, 0);
    lemma_no_prefix("$$"@, t, 0);
}

/// The marks at the start of a line, character by character.
pub proof fn lemma_reveal_marks()
    ensures
        "#"@ == seq!['#'],
        "# "@ == seq!['#', ' '],
        "## "@ == seq!['#', '#', ' '],
        "### "@ == seq!['#', '#', '#', ' '],
        "#### "@ == seq!['#', '#', '#', '#', ' '],
        "> "@ == seq!['>', ' '],
        "---"@ == seq!['-', '-', '-'],
        "***"@ == seq!['*', '*', '*'],
        "___"@ == seq!['_', '_', '_'],
        "- "@ == seq!['-', ' '],
        "* "@ == seq!['*', ' '],
        "+ "@ == seq!['+', ' '],
        "\\["@ == seq!['\\', '['],
        "```"@ == seq!['`', '`', '`'],
        "``"@ == seq!['`', '`'],
        "$$"@ == seq!['$', '$'],
        "\n"@ == seq!['\n'],
{
    reveal_strlit("#");
    reveal_strlit("# ");
    reveal_strlit("## ");
    reveal_strlit("### ");
    reveal_strlit("#### ");
    reveal_strlit("> ");
    reveal_strlit("---");
    reveal_strlit("***");
    reveal_strlit("___");
    reveal_strlit("- ");
    reveal_strlit("* ");
    reveal_strlit("+ ");
    reveal_strlit("\\[");
    reveal_strlit("```");
    reveal_strlit("``");
    reveal_strlit("$$");
    reveal_strlit("\n");
    assert("#"@ =~= seq!['#']);
    assert("# "@ =~= seq!['#', ' ']);
    assert("## "@ =~= seq!['#', '#', ' ']);
    assert("### "@ =~= seq!['#', '#', '#', ' ']);
    assert("#### "@ =~= seq!['#', '#', '#', '#', ' ']);
    assert("> "@ =~= seq!['>', ' ']);
    assert("---"@ =~= seq!['-', '-', '-']);
    assert("***"@ =~= seq!['*', '*', '*']);
    assert("___"@ =~= seq!['_', '_', '_']);
    assert("- "@ =~= seq!['-', ' ']);
    assert("* "@ =~= seq!['*', ' ']);
    assert("+ "@ =~= seq!['+', ' ']);
    assert("\\["@ =~= seq!['\\', '[']);
    assert("```"@ =~= seq!['`', '`', '`']);
    assert("``"@ =~= seq!['`', '`']);
    assert("$$"@ =~= seq!['$', '$']);
    assert("\n"@ =~= seq!['\n']);
}

/// An item of a bullet list is shown behind a green dot, whichever of the three marks it
/// is written with.
pub proof fn law_bullet_becomes_a_dot(indent: Seq<char>, rest: Seq<char>)
    requires
        text_laws::all_space(indent),
    ensures
        ({
            let shown = indent + GREEN@ + "•"@ + RESET@ + " "@ + render::inline_of(rest);
            &&& render::line_of(indent + "- "@ + rest) == shown
            &&& render::line_of(indent + "* "@ + rest) == shown
            &&& render::line_of(indent + "+ "@ + rest) == shown
        }),
{
    lemma_reveal_marks();
    lemma_bullet(indent, "- "@, rest);
    lemma_bullet(indent, "* "@, rest);
    lemma_bullet(indent, "+ "@, rest);
}

proof fn lemma_bullet(indent: Seq<char>, mark: Seq<char>, rest: Seq<char>)
    requires
        text_laws::all_space(indent),
        mark == "- "@ || mark == "* "@ || mark == "+ "@,
    ensures
        render::line_of(indent + mark + rest) == indent + GREEN@ + "•"@ + RESET@ + " "@
            + render::inline_of(rest),
        render::prefix_of(indent + mark + rest) == (
            indent + GREEN@ + "•"@ + RESET@ + " "@,
            (indent.len() + 2) as int,
        ),
{
    lemma_reveal_marks();
    lemma_head(indent, mark, rest);
    let t = mark + rest;
    assert(t[1] == ' ');
    lemma_no_prefix("#### "@, t, 0);
    lemma_no_prefix("### "@, t, 0);
    lemma_no_prefix("## "@, t, 0);
    lemma_no_prefix("# "@, t, 0);
    lemma_no_prefix("> "@, t, 0);
    lemma_no_prefix("---"@, t, 1);
    lemma_no_prefix("***"@, t, 1);
    lemma_no_prefix("___"@, t, 1);
}

/// A bullet is no block and no line that is shown whole.
proof fn lemma_bullet_streams(mark: Seq<char>, rest: Seq<char>)
    requires
        mark == "- "@ || mark == "* "@ || mark == "+ "@,
    ensures
        !render::whole_line(mark + rest),
        !"\\["@.is_prefix_of(mark + rest) && !"```"@.is_prefix_of(mark + rest),
        mark + rest != "\\["@ && mark + rest != "$$"@,
{
    lemma_reveal_marks();
    let t = mark + rest;
    assert(t[0] == mark[0]);
    lemma_no_prefix("#"@, t, 0);
    lemma_no_prefix("> "@, t, 0);
    lemma_no_prefix("\\["@, t, 0);
    lemma_no_prefix("```"@, t, 0);
    lemma_no_prefix("$$"@, t, 0);
}

/// A heading is shown bold, without its marks, and the larger two behind a bar; a quote
/// in italics behind a dim bar; a rule as a line.
pub proof fn law_headings_quotes_and_rules(indent: Seq<char>, rest: Seq<char>)
    requires
        text_laws::all_space(indent),
    ensures
        render::line_of(indent + "# "@ + rest) == BOLD@ + MAGENTA@ + "▌ "@ + render::inline_of(rest)
            + RESET@,
        render::line_of(indent + "## "@ + rest) == BOLD@ + CYAN@ + "▌ "@ + render::inline_of(rest)
            + RESET@,
        render::line_of(indent + "### "@ + rest) == BOLD@ + CYAN@ + render::inline_of(rest) + RESET@,
        render::line_of(indent + "#### "@ + rest) == BOLD@ + CYAN@ + render::inline_of(rest)
            + RESET@,
        render::line_of(indent + "> "@ + rest) == DIM@ + "│"@ + RESET@ + " "@ + ITALIC@
            + render::inline_of(rest) + RESET@,
        render::line_of(indent + "---"@) == DIM@ + "────────────────────"@ + RESET@,
        render::line_of(indent + "***"@) == render::line_of("---"@),
        render::line_of(indent + "___"@) == render::line_of("---"@),
{
    lemma_reveal_marks();
    let none = Seq::<char>::empty();
    lemma_head(indent, "# "@, rest);
    lemma_head(indent, "## "@, rest);
    lemma_head(indent, "### "@, rest);
    lemma_head(indent, "#### "@, rest);
    lemma_head(indent, "> "@, rest);
    lemma_head(indent, "---"@, none);
    lemma_head(indent, "***"@, none);
    lemma_head(indent, "___"@, none);
    lemma_head(none, "---"@, none);
    assert(indent + "---"@ + none =~= indent + "---"@);
    assert(indent + "***"@ + none =~= indent + "***"@);
    assert(indent + "___"@ + none =~= indent + "___"@);
    assert(none + "---"@ + none =~= "---"@);
    assert("---"@ + none =~= "---"@);
    assert("***"@ + none =~= "***"@);
    assert("___"@ + none =~= "___"@);
    let h1 = "# "@ + rest;
    lemma_no_prefix("#### "@, h1, 1);
    lemma_no_prefix("### "@, h1, 1);
    lemma_no_prefix("## "@, h1, 1);
    let h2 = "## "@ + rest;
    lemma_no_prefix("#### "@, h2, 2);
    lemma_no_prefix("### "@, h2, 2);
    let h3 = "### "@ + rest;
    lemma_no_prefix("#### "@, h3, 3);
    let q = "> "@ + rest;
    lemma_no_prefix("#### "@, q, 0);
    lemma_no_prefix("### "@, q, 0);
    lemma_no_prefix("## "@, q, 0);
    lemma_no_prefix("# "@, q, 0);
    lemma_no_prefix("---"@, q, 0);
    lemma_no_prefix("***"@, q, 0);
    lemma_no_prefix("___"@, q, 0);
    lemma_rule_is_no_heading("---"@);
    lemma_rule_is_no_heading("***"@);
    lemma_rule_is_no_heading("___"@);
}

proof fn lemma_rule_is_no_heading(t: Seq<char>)
    requires
        t == "---"@ || t == "***"@ || t == "___"@,
    ensures
        !"#### "@.is_prefix_of(t) && !"### "@.is_prefix_of(t) && !"## "@.is_prefix_of(t)
            && !"# "@.is_prefix_of(t),
{
    lemma_reveal_marks();
    lemma_no_prefix("#### "@, t, 0);
    lemma_no_prefix("### "@, t, 0);
    lemma_no_prefix("## "@, t, 0);
    lemma_no_prefix("# "@, t, 0);
}

// -------------------------------------------------------------- lines as they stream

/// No line end stands in a text.
pub open spec fn on_one_line(s: Seq<char>) -> bool {
    !s.contains('\n') && !s.contains('\r')
}

/// The state of a stream that holds a line of which nothing has been shown.
pub open spec fn holding(line: Seq<char>) -> StreamState {
    StreamState { line, ..render::fresh_stream() }
}

/// It cannot be told yet what kind of line this is, or it is one that is shown whole.
pub open spec fn is_held(line: Seq<char>) -> bool {
    let t = text::trimmed_start(line);
    render::undecided(t) || render::whole_line(t)
}

/// Nothing is shown of a line that is held.
pub proof fn lemma_held_so_far(line: Seq<char>, n: int)
    requires
        0 <= n <= line.len(),
        on_one_line(line),
        forall|k: int| 0 < k <= n ==> is_held(#[trigger] line.take(k)),
    ensures
        render::fed_text(render::fresh_stream(), line.take(n)) == (
            holding(line.take(n)),
            Seq::<char>::empty(),
        ),
    decreases n,
{
    let p = line.take(n);
    if n > 0 {
        lemma_held_so_far(line, n - 1);
        assert(p.drop_last() =~= line.take(n - 1));
        let c = p.last();
        assert(line.contains(line[n - 1]));
        assert(line.take(n - 1).push(c) =~= p);
        assert(is_held(line.take(n)));
        assert(Seq::<char>::empty() + Seq::<char>::empty() =~= Seq::<char>::empty());
    } else {
        assert(p =~= Seq::<char>::empty());
    }
}

/// A line that is held to its end is shown as the whole line is.
proof fn lemma_held_line(line: Seq<char>)
    requires
        on_one_line(line),
        forall|k: int| 0 < k <= line.len() ==> is_held(#[trigger] line.take(k)),
        !"\\["@.is_prefix_of(text::trimmed_start(line)),
        !"```"@.is_prefix_of(text::trimmed_start(line)),
        text::trimmed_start(line) != "\\["@ && text::trimmed_start(line) != "$$"@,
    ensures
        render::fed_text(render::fresh_stream(), line.push('\n')) == (
            render::fresh_stream(),
            render::line_of(line) + "\n"@,
        ),
{
    lemma_held_so_far(line, line.len() as int);
    assert(line.take(line.len() as int) =~= line);
    assert(line.push('\n').drop_last() =~= line);
    assert(Seq::<char>::empty() + (render::line_of(line) + "\n"@) =~= render::line_of(line)
        + "\n"@);
}

/// ASCII text takes a byte for each character.
pub proof fn lemma_short_ascii(t: Seq<char>)
    requires
        t.len() < 4,
        forall|i: int| 0 <= i < t.len() ==> (#[trigger] t[i] as u32) < 0x80,
    ensures
        vstd::utf8::encode_utf8(t).len() == t.len(),
    decreases t.len(),
{
    if t.len() > 0 {
        let rest = t.drop_first();
        assert forall|i: int| 0 <= i < rest.len() implies (#[trigger] rest[i] as u32) < 0x80 by {
            assert((t[i + 1] as u32) < 0x80);
        }
        lemma_short_ascii(rest);
        assert((t[0] as u32) < 0x80);
    }
}

proof fn lemma_trimmed_prefix(indent: Seq<char>, t: Seq<char>, k: int)
    requires
        text_laws::all_space(indent),
        t.len() > 0,
        !text::is_space(t[0]),
        0 < k <= indent.len() + t.len(),
    ensures
        k <= indent.len() ==> text::trimmed_start((indent + t).take(k)) == Seq::<char>::empty(),
        k > indent.len() ==> text::trimmed_start((indent + t).take(k)) == t.take(
            k - indent.len(),
        ),
{
    let p = (indent + t).take(k);
    let n = indent.len() as int;
    if k <= n {
        assert forall|i: int| 0 <= i < p.len() implies text::is_space(p[i]) by {
            assert(p[i] == indent[i]);
        }
        text::lemma_leading_spaces_unique(p, p.len() as int);
        assert(text::trimmed_start(p) =~= Seq::<char>::empty());
    } else {
        assert forall|i: int| 0 <= i < n implies text::is_space(p[i]) by {
            assert(p[i] == indent[i]);
        }
        assert(p[n] == t[0]);
        text::lemma_leading_spaces_unique(p, n);
        assert(text::trimmed_start(p) =~= t.take(k - n));
    }
}

proof fn lemma_nothing_is_undecided()
    ensures
        render::undecided(Seq::empty()),
{
    lemma_reveal_marks();
    lemma_short_ascii(Seq::empty());
    lemma_no_prefix("``"@, Seq::<char>::empty(), 0);
}

/// Headings and quotes stream in as they are shown whole: held to the end of their line,
/// then shown at once.
pub proof fn law_streamed_headings_and_quotes(indent: Seq<char>, rest: Seq<char>)
    requires
        text_laws::all_space(indent),
        on_one_line(indent),
        on_one_line(rest),
    ensures
        render::fed_text(render::fresh_stream(), (indent + "# "@ + rest).push('\n')) == (
            render::fresh_stream(),
            BOLD@ + MAGENTA@ + "▌ "@ + render::inline_of(rest) + RESET@ + "\n"@,
        ),
        render::fed_text(render::fresh_stream(), (indent + "## "@ + rest).push('\n')) == (
            render::fresh_stream(),
            BOLD@ + CYAN@ + "▌ "@ + render::inline_of(rest) + RESET@ + "\n"@,
        ),
        render::fed_text(render::fresh_stream(), (indent + "### "@ + rest).push('\n')) == (
            render::fresh_stream(),
            BOLD@ + CYAN@ + render::inline_of(rest) + RESET@ + "\n"@,
        ),
        render::fed_text(render::fresh_stream(), (indent + "> "@ + rest).push('\n')) == (
            render::fresh_stream(),
            DIM@ + "│"@ + RESET@ + " "@ + ITALIC@ + render::inline_of(rest) + RESET@ + "\n"@,
        ),
{
    law_headings_quotes_and_rules(indent, rest);
    lemma_reveal_marks();
    lemma_held_mark(indent, "# "@, rest);
    lemma_held_mark(indent, "## "@, rest);
    lemma_held_mark(indent, "### "@, rest);
    lemma_held_mark(indent, "> "@, rest);
}

proof fn lemma_held_mark(indent: Seq<char>, mark: Seq<char>, rest: Seq<char>)
    requires
        text_laws::all_space(indent),
        on_one_line(indent),
        on_one_line(rest),
        mark == "# "@ || mark == "## "@ || mark == "### "@ || mark == "> "@,
    ensures
        render::fed_text(render::fresh_stream(), (indent + mark + rest).push('\n')) == (
            render::fresh_stream(),
            render::line_of(indent + mark + rest) + "\n"@,
        ),
{
    lemma_reveal_marks();
    let t = mark + rest;
    let line = indent + mark + rest;
    assert(line =~= indent + t);
    lemma_head(indent, mark, rest);
    lemma_nothing_is_undecided();
    assert(t[0] == mark[0]);
    assert forall|i: int| 0 <= i < line.len() implies line[i] != '\n' && line[i] != '\r' by {
        if i < indent.len() {
            assert(indent.contains(indent[i]));
        } else if i >= indent.len() + mark.len() {
            assert(rest.contains(rest[i - indent.len() - mark.len()]));
        }
    }
    assert forall|k: int| 0 < k <= line.len() implies is_held(#[trigger] line.take(k)) by {
        lemma_trimmed_prefix(indent, t, k);
        if k > indent.len() {
            let p = t.take(k - indent.len());
            assert(p[0] == mark[0]);
            if mark == "> "@ {
                if p.len() == 1 {
                    lemma_short_ascii(p);
                    lemma_no_prefix("``"@, p, 0);
                    assert(!p.contains(' '));
                } else {
                    assert(p.subrange(0, 2) =~= "> "@);
                }
            } else {
                assert(p.subrange(0, 1) =~= "#"@);
            }
        }
    }
    lemma_no_prefix("\\["@, t, 0);
    lemma_no_prefix("```"@, t, 0);
    lemma_no_prefix("$$"@, t, 0);
    lemma_held_line(line);
}

/// From `i` on a text holds none of the characters with a meaning of their own.
pub open spec fn plain_from(s: Seq<char>, i: int) -> bool {
    forall|k: int|
        i <= k < s.len() ==> {
            let c = #[trigger] s[k];
            c != '`' && c != '*' && c != '_' && c != '$' && c != '\\'
        }
}

/// Plain text is complete up to its end.
pub proof fn lemma_plain_boundary_from(s: Seq<char>, i: int)
    requires
        0 <= i <= s.len(),
        plain_from(s, i),
    ensures
        render::boundary_from(s, i) == s.len(),
    decreases s.len() - i,
{
    if i < s.len() {
        lemma_plain_boundary_from(s, i + 1);
    }
}

/// An item whose mark has been shown goes on character by character.
pub proof fn lemma_item_so_far(
    mark: Seq<char>,
    shown: Seq<char>,
    rest: Seq<char>,
    n: int,
)
    requires
        0 <= n <= rest.len(),
        on_one_line(rest),
        render_laws::is_plain(rest),
        mark.len() > 0,
        render::fed_text(render::fresh_stream(), mark) == (
            StreamState {
                line: mark,
                line_started: true,
                emitted: mark.len() as int,
                ..render::fresh_stream()
            },
            shown,
        ),
    ensures
        render::fed_text(render::fresh_stream(), mark + rest.take(n)) == (
            StreamState {
                line: mark + rest.take(n),
                line_started: true,
                emitted: mark.len() + n,
                ..render::fresh_stream()
            },
            shown + rest.take(n),
        ),
    decreases n,
{
    let s = mark + rest.take(n);
    if n == 0 {
        assert(s =~= mark);
        assert(shown + rest.take(0) =~= shown);
    } else {
        lemma_item_so_far(mark, shown, rest, n - 1);
        let c = rest[n - 1];
        let before = mark + rest.take(n - 1);
        assert(s.drop_last() =~= before);
        assert(s.last() == c);
        assert(rest.contains(c));
        assert(before.push(c) =~= s);
        assert(plain_from(s, s.len() - 1));
        lemma_plain_boundary_from(s, s.len() - 1);
        assert(s.subrange(s.len() - 1, s.len() as int) =~= seq![c]);
        assert(render_laws::is_plain(seq![c]));
        render_laws::law_plain_text_is_unchanged(seq![c]);
        assert(shown + rest.take(n - 1) + seq![c] =~= shown + rest.take(n));
    }
}

/// An item of a list streams in as it is shown whole.
#[verifier::rlimit(40)]
proof fn lemma_streamed_item(indent: Seq<char>, mark: Seq<char>, rest: Seq<char>)
    requires
        text_laws::all_space(indent),
        on_one_line(indent),
        on_one_line(mark),
        on_one_line(rest),
        render_laws::is_plain(rest),
        2 <= mark.len() < 5,
        mark.last() == ' ',
        !text::is_space(mark[0]),
        forall|i: int|
            0 <= i < mark.len() - 1 ==> #[trigger] mark[i] != ' ' && (mark[i] as u32) < 0x80
                && mark[i] != '`',
        !render::whole_line(mark),
        !"\\["@.is_prefix_of(mark + rest) && !"```"@.is_prefix_of(mark + rest),
        mark + rest != "\\["@ && mark + rest != "$$"@,
        render::prefix_of(indent + mark).1 == indent.len() + mark.len(),
        render::line_of(indent + mark + rest) == render::prefix_of(indent + mark).0
            + render::inline_of(rest),
    ensures
        render::fed_text(render::fresh_stream(), (indent + mark + rest).push('\n')) == (
            render::fresh_stream(),
            render::line_of(indent + mark + rest) + "\n"@,
        ),
{
    lemma_reveal_marks();
    let head = indent + mark;
    let m = head.len() as int;
    let none = Seq::<char>::empty();
    let shown = render::prefix_of(head).0;
    lemma_nothing_is_undecided();
    assert forall|i: int| 0 <= i < head.len() implies head[i] != '\n' && head[i] != '\r' by {
        if i < indent.len() {
            assert(indent.contains(indent[i]));
        } else {
            assert(mark.contains(mark[i - indent.len()]));
        }
    }
    assert forall|k: int| 0 < k <= m - 1 implies is_held(#[trigger] head.take(k)) by {
        lemma_trimmed_prefix(indent, mark, k);
        if k > indent.len() {
            let p = mark.take(k - indent.len());
            assert forall|i: int| 0 <= i < p.len() implies (#[trigger] p[i] as u32) < 0x80 && p[i]
                != ' ' by {
                assert(p[i] == mark[i]);
            }
            lemma_short_ascii(p);
            assert(p[0] == mark[0]);
            lemma_no_prefix("``"@, p, 0);
        }
    }
    lemma_held_so_far(head, m - 1);
    let st = StreamState { line: head, ..render::fresh_stream() };
    assert(head.take(m - 1).push(' ') =~= head);
    assert(head.drop_last() =~= head.take(m - 1));
    assert(head.last() == ' ');
    lemma_trimmed_prefix(indent, mark, m);
    assert((indent + mark).take(m) =~= head);
    assert(mark.take(mark.len() as int) =~= mark);
    assert(text::trimmed_start(head) == mark);
    assert(mark.contains(mark[mark.len() - 1]));
    assert(!render::undecided(mark));
    assert(render::boundary_from(head, m) == m);
    assert(shown + none =~= shown);
    assert(none + shown =~= shown);
    let started = StreamState { line_started: true, emitted: m, ..st };
    assert(render::partial(st) == (started, shown));
    assert(render::fed_text(render::fresh_stream(), head) == (started, shown));
    lemma_item_so_far(head, shown, rest, rest.len() as int);
    assert(rest.take(rest.len() as int) =~= rest);
    let line = indent + mark + rest;
    assert(line =~= head + rest);
    assert(line.push('\n').drop_last() =~= line);
    lemma_head(indent, mark, rest);
    assert(line.skip(line.len() as int) =~= none);
    render_laws::law_plain_text_is_unchanged(none);
    render_laws::law_plain_text_is_unchanged(rest);
    assert(none + "\n"@ =~= "\n"@);
    let end = StreamState { line, line_started: true, emitted: line.len() as int, ..st };
    assert(render::flushed(end, true) == (render::fresh_stream(), "\n"@));
}

/// An ordered list streams in with its own numbers: an item of up to two digits is shown,
/// mark and text, as the whole line is.
pub proof fn law_streamed_item_keeps_its_number(
    indent: Seq<char>,
    digits: Seq<char>,
    rest: Seq<char>,
)
    requires
        text_laws::all_space(indent),
        on_one_line(indent),
        1 <= digits.len() <= 2,
        number::all_digits(digits),
        on_one_line(rest),
        render_laws::is_plain(rest),
    ensures
        render::fed_text(render::fresh_stream(), (indent + digits + ". "@ + rest).push('\n')) == (
            render::fresh_stream(),
            indent + GREEN@ + digits + "."@ + RESET@ + " "@ + rest + "\n"@,
        ),
        render::fed_text(render::fresh_stream(), (indent + digits + ". "@ + rest).push('\n')).1
            == render::line_of(indent + digits + ". "@ + rest) + "\n"@,
{
    reveal_strlit(". ");
    let mark = digits + ". "@;
    let none = Seq::<char>::empty();
    law_numbered_item_keeps_its_number(indent, digits, rest);
    law_numbered_item_keeps_its_number(indent, digits, none);
    assert(indent + digits + ". "@ + none =~= indent + mark);
    assert(indent + digits + ". "@ + rest =~= indent + mark + rest);
    assert forall|i: int| 0 <= i < digits.len() implies '0' <= #[trigger] digits[i] <= '9' by {
        assert(number::is_digit(digits[i]));
    }
    assert(mark[0] == digits[0]);
    assert((mark + rest)[0] == digits[0]);
    lemma_starts_with_digit(mark);
    lemma_starts_with_digit(mark + rest);
    assert forall|i: int| 0 <= i < mark.len() implies mark[i] != '\n' && mark[i] != '\r' by {
        if i < digits.len() {
            assert('0' <= digits[i] <= '9');
        }
    }
    assert forall|i: int| 0 <= i < mark.len() - 1 implies #[trigger] mark[i] != ' ' && (
    mark[i] as u32) < 0x80 && mark[i] != '`' by {
        if i < digits.len() {
            assert('0' <= digits[i] <= '9');
        }
    }
    lemma_streamed_item(indent, mark, rest);
    render_laws::law_plain_text_is_unchanged(rest);
}

/// The text of an item goes on as it is once its line has begun to be shown.
proof fn lemma_rest_streams(head: Seq<char>, shown: Seq<char>, rest: Seq<char>)
    requires
        on_one_line(rest),
        render_laws::is_plain(rest),
        head.len() > 0,
        render::fed_text(render::fresh_stream(), head) == (
            StreamState {
                line: head,
                line_started: true,
                emitted: head.len() as int,
                ..render::fresh_stream()
            },
            shown,
        ),
        !"\\["@.is_prefix_of(text::trimmed_start(head + rest)),
        !"```"@.is_prefix_of(text::trimmed_start(head + rest)),
        text::trimmed_start(head + rest) != "\\["@ && text::trimmed_start(head + rest) != "$$"@,
    ensures
        render::fed_text(render::fresh_stream(), (head + rest).push('\n')) == (
            render::fresh_stream(),
            shown + rest + "\n"@,
        ),
{
    let none = Seq::<char>::empty();
    lemma_item_so_far(head, shown, rest, rest.len() as int);
    assert(rest.take(rest.len() as int) =~= rest);
    let line = head + rest;
    assert(line.push('\n').drop_last() =~= line);
    assert(line.skip(line.len() as int) =~= none);
    render_laws::law_plain_text_is_unchanged(none);
    assert(none + "\n"@ =~= "\n"@);
    let end = StreamState {
        line,
        line_started: true,
        emitted: line.len() as int,
        ..render::fresh_stream()
    };
    assert(render::flushed(end, true) == (render::fresh_stream(), "\n"@));
}

/// An item whose number has three digits or more is on its way before its mark is
/// whole: it streams in as it is written, number and text.
pub proof fn law_long_number_streams_as_written(
    indent: Seq<char>,
    digits: Seq<char>,
    rest: Seq<char>,
)
    requires
        text_laws::all_space(indent),
        on_one_line(indent),
        digits.len() >= 3,
        number::all_digits(digits),
        on_one_line(rest),
        render_laws::is_plain(rest),
    ensures
        render::fed_text(render::fresh_stream(), (indent + digits + ". "@ + rest).push('\n')) == (
            render::fresh_stream(),
            indent + digits + ". "@ + rest + "\n"@,
        ),
{
    lemma_reveal_marks();
    reveal_strlit(". ");
    let t = digits + ". "@ + rest;
    let line = indent + t;
    let n = indent.len() as int;
    assert(line =~= indent + digits + ". "@ + rest);
    assert forall|i: int| 0 <= i < digits.len() implies '0' <= #[trigger] digits[i] <= '9' by {
        assert(number::is_digit(digits[i]));
    }
    assert forall|i: int| 0 <= i < t.len() implies t[i] != '\n' && t[i] != '\r' by {
        if i < digits.len() {
            assert('0' <= digits[i] <= '9');
        } else if i >= digits.len() + 2 {
            assert(rest.contains(rest[i - digits.len() - 2]));
        }
    }
    assert forall|i: int| 0 <= i < line.len() implies line[i] != '\n' && line[i] != '\r' by {
        if i < n {
            assert(indent.contains(indent[i]));
        } else {
            assert(line[i] == t[i - n]);
        }
    }
    assert(render_laws::is_plain(t)) by {
        assert forall|i: int| 0 <= i < t.len() implies {
            let c = #[trigger] t[i];
            c != '`' && c != '*' && c != '_' && c != '$' && c != '\\'
        } by {
            if i < digits.len() {
                assert('0' <= digits[i] <= '9');
            } else if i >= digits.len() + 2 {
                assert(t[i] == rest[i - digits.len() - 2]);
            }
        }
    }
    assert(render_laws::is_plain(line)) by {
        assert forall|i: int| 0 <= i < line.len() implies {
            let c = #[trigger] line[i];
            c != '`' && c != '*' && c != '_' && c != '$' && c != '\\'
        } by {
            if i < n {
                assert(text::is_space(indent[i]));
            } else {
                assert(line[i] == t[i - n]);
            }
        }
    }
    lemma_nothing_is_undecided();
    assert(t[0] == digits[0]);
    assert forall|k: int| 0 < k <= n + 3 implies is_held(#[trigger] line.take(k)) by {
        lemma_trimmed_prefix(indent, t, k);
        if k > n {
            let p = t.take(k - n);
            assert forall|i: int| 0 <= i < p.len() implies (#[trigger] p[i] as u32) < 0x80 && p[i]
                != ' ' by {
                assert(p[i] == digits[i]);
            }
            lemma_short_ascii(p);
            lemma_no_prefix("``"@, p, 0);
        }
    }
    lemma_held_so_far(line, n + 3);
    let head = line.take(n + 4);
    lemma_fourth_character(indent, digits, rest);
    let st = StreamState { line: head, ..render::fresh_stream() };
    assert(head.drop_last() =~= line.take(n + 3));
    assert(head.last() == line[n + 3]);
    assert(line.contains(line[n + 3]));
    assert(line.take(n + 3).push(head.last()) =~= head);
    assert(plain_from(head, 0)) by {
        assert forall|i: int| 0 <= i < head.len() implies {
            let c = #[trigger] head[i];
            c != '`' && c != '*' && c != '_' && c != '$' && c != '\\'
        } by {
            assert(head[i] == line[i]);
        }
    }
    lemma_plain_boundary_from(head, 0);
    assert(head.subrange(0, head.len() as int) =~= head);
    assert(render_laws::is_plain(head));
    render_laws::law_plain_text_is_unchanged(head);
    assert(Seq::<char>::empty() + head =~= head);
    let started = StreamState { line_started: true, emitted: head.len() as int, ..st };
    assert(render::partial(st) == (started, head));
    let more = line.skip(n + 4);
    assert(head + more =~= line);
    assert(render_laws::is_plain(more)) by {
        assert forall|i: int| 0 <= i < more.len() implies {
            let c = #[trigger] more[i];
            c != '`' && c != '*' && c != '_' && c != '$' && c != '\\'
        } by {
            assert(more[i] == line[i + n + 4]);
        }
    }
    assert forall|i: int| 0 <= i < more.len() implies more[i] != '\n' && more[i] != '\r' by {
        assert(more[i] == line[i + n + 4]);
    }
    lemma_trimmed_prefix(indent, t, line.len() as int);
    assert(line.take(line.len() as int) =~= line);
    assert(t.take(t.len() as int) =~= t);
    assert(text::trimmed_start(line) == t);
    assert(number::is_digit(digits[0]));
    lemma_starts_with_digit(t);
    lemma_rest_streams(head, head, more);
    assert(head + more + "\n"@ =~= line + "\n"@);
}

/// Four characters into a long number no mark of a list can be told.
proof fn lemma_fourth_character(indent: Seq<char>, digits: Seq<char>, rest: Seq<char>)
    requires
        text_laws::all_space(indent),
        digits.len() >= 3,
        number::all_digits(digits),
    ensures
        ({
            let t = digits + ". "@ + rest;
            let head = (indent + t).take(indent.len() as int + 4);
            &&& text::trimmed_start(head) == t.take(4)
            &&& !is_held(head)
            &&& render::prefix_of(head) == (Seq::<char>::empty(), 0int)
        }),
{
    reveal_strlit(". ");
    lemma_reveal_marks();
    let t = digits + ". "@ + rest;
    let head = (indent + t).take(indent.len() as int + 4);
    let p = t.take(4);
    assert(number::is_digit(digits[0]));
    assert(number::is_digit(digits[1]));
    assert(number::is_digit(digits[2]));
    assert(t[0] == digits[0]);
    lemma_trimmed_prefix(indent, t, indent.len() as int + 4);
    assert(p[0] == digits[0] && p[1] == digits[1] && p[2] == digits[2]);
    if digits.len() > 3 {
        assert(number::is_digit(digits[3]));
    }
    assert(p[3] != ' ');
    lemma_starts_with_digit(p);
    lemma_four_are_enough(p);
    text::lemma_occurrence_from(p, ". "@, 0);
    if let Some(k) = text::occurrence_from(p, ". "@, 0) {
        assert(p.subrange(k, k + 2)[1] == p[k + 1]);
    }
}

proof fn lemma_four_are_enough(p: Seq<char>)
    requires
        p.len() == 4,
    ensures
        vstd::utf8::encode_utf8(p).len() >= 4,
    decreases p.len(),
{
    reveal_with_fuel(vstd::utf8::encode_utf8, 5);
}

/// A bullet list streams in as it is shown whole.
pub proof fn law_streamed_bullet_becomes_a_dot(indent: Seq<char>, rest: Seq<char>)
    requires
        text_laws::all_space(indent),
        on_one_line(indent),
        on_one_line(rest),
        render_laws::is_plain(rest),
    ensures
        ({
            let shown = indent + GREEN@ + "•"@ + RESET@ + " "@ + rest + "\n"@;
            &&& render::fed_text(render::fresh_stream(), (indent + "- "@ + rest).push('\n')) == (
                render::fresh_stream(),
                shown,
            )
            &&& render::fed_text(render::fresh_stream(), (indent + "* "@ + rest).push('\n')) == (
                render::fresh_stream(),
                shown,
            )
            &&& render::fed_text(render::fresh_stream(), (indent + "+ "@ + rest).push('\n')) == (
                render::fresh_stream(),
                shown,
            )
        }),
{
    lemma_reveal_marks();
    lemma_streamed_bullet(indent, "- "@, rest);
    lemma_streamed_bullet(indent, "* "@, rest);
    lemma_streamed_bullet(indent, "+ "@, rest);
    render_laws::law_plain_text_is_unchanged(rest);
}

proof fn lemma_two_chars(mark: Seq<char>, c: char)
    requires
        mark == seq![c, ' '],
        c == '-' || c == '*' || c == '+',
    ensures
        mark.len() == 2,
        mark.last() == ' ',
        on_one_line(mark),
        !text::is_space(mark[0]),
        forall|i: int|
            0 <= i < mark.len() - 1 ==> #[trigger] mark[i] != ' ' && (mark[i] as u32) < 0x80
                && mark[i] != '`',
{
    assert forall|i: int| 0 <= i < mark.len() implies mark[i] != '\n' && mark[i] != '\r' by {
        assert(mark[i] == c || mark[i] == ' ');
    }
}

#[verifier::rlimit(50)]
#[verifier::spinoff_prover]
proof fn lemma_streamed_bullet(indent: Seq<char>, mark: Seq<char>, rest: Seq<char>)
    requires
        text_laws::all_space(indent),
        on_one_line(indent),
        on_one_line(rest),
        render_laws::is_plain(rest),
        mark == "- "@ || mark == "* "@ || mark == "+ "@,
    ensures
        render::fed_text(render::fresh_stream(), (indent + mark + rest).push('\n')) == (
            render::fresh_stream(),
            indent + GREEN@ + "•"@ + RESET@ + " "@ + render::inline_of(rest) + "\n"@,
        ),
{
    lemma_reveal_marks();
    let none = Seq::<char>::empty();
    lemma_bullet(indent, mark, rest);
    lemma_bullet(indent, mark, none);
    assert(indent + mark + none =~= indent + mark);
    lemma_bullet_streams(mark, none);
    lemma_bullet_streams(mark, rest);
    assert(mark + none =~= mark);
    let c = mark[0];
    assert(c == '-' || c == '*' || c == '+');
    assert(mark =~= seq![c, ' ']);
    lemma_two_chars(mark, c);
    assert(render::prefix_of(indent + mark).0 == indent + GREEN@ + "•"@ + RESET@ + " "@);
    assert(render::line_of(indent + mark + rest) == render::prefix_of(indent + mark).0
        + render::inline_of(rest));
    lemma_streamed_item(indent, mark, rest);
}

} // verus!

//! What holds of more than one span, piece of math or script in a line: each is shown as
//! if it stood alone.
use crate::cli::inline_laws;
use crate::cli::render;
use crate::cli::render::Span;
use crate::cli::render_laws;
use crate::cli::style::{BOLD, CYAN, ITALIC, RESET, YELLOW};
use crate::text;
use crate::text_laws;
use vstd::prelude::*;

verus! {

// --------------------------------------------------------------------------- spans

/// A position behind a text of `n` characters put in front.
pub open spec fn moved(at: Option<int>, n: int) -> Option<int> {
    match at {
        Some(k) => Some(k + n),
        None => None,
    }
}

proof fn lemma_closing_moves(p: Seq<char>, a: Seq<char>, marker: char, i: int)
    requires
        0 <= i,
    ensures
        render::closing_from(p + a, marker, p.len() + i) == moved(
            render::closing_from(a, marker, i),
            p.len() as int,
        ),
    decreases a.len() + 2 - i,
{
    if i < a.len() {
        assert((p + a)[p.len() + i] == a[i]);
        if a[i] == marker {
        } else if a[i] == '\\' {
            lemma_closing_moves(p, a, marker, i + 2);
        } else {
            lemma_closing_moves(p, a, marker, i + 1);
        }
    }
}

proof fn lemma_occurrence_moves(p: Seq<char>, a: Seq<char>, pat: Seq<char>, i: int)
    requires
        0 <= i,
    ensures
        text::occurrence_from(p + a, pat, p.len() + i) == moved(
            text::occurrence_from(a, pat, i),
            p.len() as int,
        ),
{
    let s = p + a;
    let n = p.len() as int;
    assert forall|k: int| 0 <= k implies #[trigger] text::occurs_at(s, pat, n + k)
        == text::occurs_at(a, pat, k) by {
        if k + pat.len() <= a.len() {
            assert(s.subrange(n + k, n + k + pat.len()) =~= a.subrange(k, k + pat.len()));
        }
    }
    text::lemma_occurrence_from(a, pat, i);
    text::lemma_occurrence_from(s, pat, n + i);
    match text::occurrence_from(a, pat, i) {
        Some(k) => {
            assert(text::occurs_at(s, pat, n + k));
            assert forall|j: int| n + i <= j < n + k implies !text::occurs_at(s, pat, j) by {
                assert(text::occurs_at(s, pat, n + (j - n)) == text::occurs_at(a, pat, j - n));
            }
            text_laws::lemma_text_is_at(s, pat, n + i, n + k);
        },
        None => {
            match text::occurrence_from(s, pat, n + i) {
                Some(k) => {
                    assert(text::occurs_at(s, pat, n + (k - n)) == text::occurs_at(a, pat, k - n));
                },
                None => {},
            }
        },
    }
}

/// A span behind a text of `n` characters put in front.
pub open spec fn moved_span(at: Option<Span>, n: int) -> Option<Span> {
    match at {
        Some(x) => Some(
            Span { style: x.style, start: x.start + n, end: x.end + n, next: x.next + n },
        ),
        None => None,
    }
}

proof fn lemma_span_moves(p: Seq<char>, a: Seq<char>, i: int)
    requires
        0 <= i < a.len(),
        p.len() > 0 ==> !text::is_word(p.last()),
    ensures
        render::span_at(p + a, p.len() + i) == moved_span(render::span_at(a, i), p.len() as int),
{
    let s = p + a;
    let n = p.len() as int;
    let c = a[i];
    assert(s[n + i] == c);
    lemma_closing_moves(p, a, c, i + 1);
    lemma_closing_moves(p, a, '`', i + 1);
    lemma_occurrence_moves(p, a, "**"@, i + 2);
    if i + 1 < a.len() {
        assert(s[n + i + 1] == a[i + 1]);
    }
    assert(render::is_mid_word(s, n + i) == render::is_mid_word(a, i)) by {
        if i > 0 {
            assert(s[n + i - 1] == a[i - 1]);
        } else if n > 0 {
            assert(s[n - 1] == p.last());
        }
    }
    render::lemma_closing_from(a, c, i + 1);
    match render::closing_from(a, c, i + 1) {
        Some(end) => {
            assert(s.subrange(n + i + 1, n + end) =~= a.subrange(i + 1, end));
            assert(s[n + end - 1] == a[end - 1]);
            if end + 1 < a.len() {
                assert(s[n + end + 1] == a[end + 1]);
            }
            assert(render::is_mid_word(s, n + end) == render::is_mid_word(a, end));
        },
        None => {},
    }
}

proof fn lemma_spans_move(p: Seq<char>, a: Seq<char>, i: int)
    requires
        0 <= i <= a.len(),
        p.len() > 0 ==> !text::is_word(p.last()),
    ensures
        render::spans_from(p + a, p.len() + i) == render::spans_from(a, i),
    decreases a.len() - i,
{
    if i < a.len() {
        let s = p + a;
        let n = p.len() as int;
        lemma_span_moves(p, a, i);
        assert(s[n + i] == a[i]);
        match render::span_at(a, i) {
            Some(x) => {
                render::lemma_span_at(a, i);
                assert(s.subrange(x.start + n, x.end + n) =~= a.subrange(x.start, x.end));
                lemma_spans_move(p, a, x.next);
            },
            None => {
                lemma_spans_move(p, a, i + 1);
            },
        }
    }
}

proof fn lemma_marks_part_words()
    ensures
        !text::is_word('*'),
        !text::is_word('`'),
        !text::is_word('_'),
{
}

proof fn lemma_span_is_shown(s: Seq<char>, i: int, span: Span)
    requires
        0 <= i < s.len(),
        render::span_at(s, i) == Some(span),
    ensures
        render::spans_from(s, i) == span.style + s.subrange(span.start, span.end) + RESET@
            + render::spans_from(s, span.next),
{
}

proof fn lemma_plain_start(before: Seq<char>, rest: Seq<char>)
    requires
        render_laws::is_plain(before),
    ensures
        render::spans_from(before + rest, 0) == before + render::spans_from(
            before + rest,
            before.len() as int,
        ),
{
    let s = before + rest;
    let n = before.len() as int;
    assert forall|k: int| 0 <= k < n implies #[trigger] s[k] != '`' && s[k] != '*' && s[k]
        != '_' by {
        assert(s[k] == before[k]);
    }
    inline_laws::lemma_unmarked_run(s, 0, n);
    assert(s.subrange(0, n) =~= before);
}

/// The first span of a line, and what follows it.
proof fn lemma_first_span(before: Seq<char>, raw: Seq<char>, after: Seq<char>, span: Span)
    requires
        render_laws::is_plain(before),
        raw.len() > 0,
        !text::is_word(raw.last()),
        render::span_at(before + raw + after, before.len() as int) == Some(span),
        span.next == before.len() + raw.len(),
        before.len() <= span.start <= span.end <= before.len() + raw.len(),
    ensures
        render::spans_from(before + raw + after, 0) == before + (span.style + (before + raw
            + after).subrange(span.start, span.end) + RESET@) + render::spans_from(after, 0),
{
    let s = before + raw + after;
    let n = before.len() as int;
    let p = before + raw;
    let rest = render::spans_from(after, 0);
    let shown = span.style + s.subrange(span.start, span.end) + RESET@;
    assert(render::spans_from(s, 0) == before + render::spans_from(s, n)) by {
        assert(s =~= before + (raw + after));
        lemma_plain_start(before, raw + after);
    }
    assert(render::spans_from(s, span.next) == rest) by {
        assert(p.last() == raw.last());
        lemma_spans_move(p, after, 0);
    }
    lemma_span_is_shown(s, n, span);
    assert(before + (shown + rest) =~= before + shown + rest);
}

/// Bold text is shown bold wherever it stands in a line, and what follows it is shown as
/// if it stood alone.
pub proof fn law_text_behind_bold_is_shown(before: Seq<char>, inner: Seq<char>, after: Seq<char>)
    requires
        render_laws::is_plain(before),
        !inner.contains('*'),
        inner.len() > 0,
    ensures
        render::spans_from(before + ("**"@ + inner + "**"@) + after, 0) == before + (BOLD@ + inner
            + RESET@) + render::spans_from(after, 0),
{
    reveal_strlit("**");
    let raw = "**"@ + inner + "**"@;
    let s = before + raw + after;
    let n = before.len() as int;
    let m = inner.len() as int;
    assert(s[n] == '*' && s[n + 1] == '*');
    assert forall|k: int| n + 2 <= k < n + 2 + m implies !text::occurs_at(s, "**"@, k) by {
        assert(s[k] == inner[k - n - 2]);
        if text::occurs_at(s, "**"@, k) {
            assert(s.subrange(k, k + 2)[0] == s[k]);
        }
    }
    assert(s.subrange(n + 2 + m, n + 4 + m) =~= "**"@);
    text_laws::lemma_text_is_at(s, "**"@, n + 2, n + 2 + m);
    let span = Span { style: BOLD@, start: n + 2, end: n + 2 + m, next: n + 4 + m };
    lemma_marks_part_words();
    assert(raw.last() == '*');
    lemma_first_span(before, raw, after, span);
    assert(s.subrange(n + 2, n + 2 + m) =~= inner);
}

/// Code is shown as it is wherever it stands in a line, and what follows it is shown as if
/// it stood alone.
pub proof fn law_text_behind_code_is_shown(before: Seq<char>, code: Seq<char>, after: Seq<char>)
    requires
        render_laws::is_plain(before),
        !code.contains('`'),
        !code.contains('\\'),
    ensures
        render::spans_from(before + ("`"@ + code + "`"@) + after, 0) == before + (YELLOW@ + code
            + RESET@) + render::spans_from(after, 0),
{
    reveal_strlit("`");
    let raw = "`"@ + code + "`"@;
    let s = before + raw + after;
    let n = before.len() as int;
    let m = code.len() as int;
    assert(s[n] == '`' && s[n + 1 + m] == '`');
    assert forall|k: int| n + 1 <= k < n + 1 + m implies #[trigger] s[k] != '`' && s[k]
        != '\\' by {
        assert(s[k] == code[k - n - 1]);
        assert(code.contains(code[k - n - 1]));
    }
    inline_laws::lemma_closing_is_at(s, '`', n + 1, n + 1 + m);
    let span = Span { style: YELLOW@, start: n + 1, end: n + 1 + m, next: n + 2 + m };
    lemma_marks_part_words();
    assert(raw.last() == '`');
    lemma_first_span(before, raw, after, span);
    assert(s.subrange(n + 1, n + 1 + m) =~= code);
}

/// Text in italics is shown so wherever it stands in a line, and what follows it is shown
/// as if it stood alone.
pub proof fn law_text_behind_italics_is_shown(
    before: Seq<char>,
    inner: Seq<char>,
    after: Seq<char>,
)
    requires
        render_laws::is_plain(before),
        !inner.contains('*'),
        !inner.contains('\\'),
        inner.len() > 0,
    ensures
        render::spans_from(before + ("*"@ + inner + "*"@) + after, 0) == before + (ITALIC@ + inner
            + RESET@) + render::spans_from(after, 0),
{
    reveal_strlit("*");
    let raw = "*"@ + inner + "*"@;
    let s = before + raw + after;
    let n = before.len() as int;
    let m = inner.len() as int;
    assert(s[n] == '*' && s[n + 1 + m] == '*');
    assert forall|k: int| n + 1 <= k < n + 1 + m implies #[trigger] s[k] != '*' && s[k]
        != '\\' by {
        assert(s[k] == inner[k - n - 1]);
        assert(inner.contains(inner[k - n - 1]));
    }
    assert(s[n + 1] != '*');
    inline_laws::lemma_closing_is_at(s, '*', n + 1, n + 1 + m);
    assert(s.subrange(n + 1, n + 1 + m) =~= inner);
    let span = Span { style: ITALIC@, start: n + 1, end: n + 1 + m, next: n + 2 + m };
    lemma_marks_part_words();
    assert(raw.last() == '*');
    lemma_first_span(before, raw, after, span);
}

/// Spans that follow each other in a line without math are each shown in their style.
pub proof fn law_spans_follow_each_other(before: Seq<char>, inner: Seq<char>, after: Seq<char>)
    requires
        render_laws::is_plain(before),
        inline_laws::has_no_math(inner),
        inline_laws::has_no_math(after),
        !inner.contains('*'),
        !inner.contains('`'),
        inner.len() > 0,
    ensures
        render::inline_of(before + ("**"@ + inner + "**"@) + after) == before + (BOLD@ + inner
            + RESET@) + render::inline_of(after),
        render::inline_of(before + ("`"@ + inner + "`"@) + after) == before + (YELLOW@ + inner
            + RESET@) + render::inline_of(after),
        render::inline_of(before + ("*"@ + inner + "*"@) + after) == before + (ITALIC@ + inner
            + RESET@) + render::inline_of(after),
{
    reveal_strlit("**");
    reveal_strlit("`");
    reveal_strlit("*");
    lemma_marked_has_no_math(before, "**"@, inner, after);
    lemma_marked_has_no_math(before, "`"@, inner, after);
    lemma_marked_has_no_math(before, "*"@, inner, after);
    inline_laws::lemma_no_math(after);
    law_text_behind_bold_is_shown(before, inner, after);
    law_text_behind_code_is_shown(before, inner, after);
    law_text_behind_italics_is_shown(before, inner, after);
}

proof fn lemma_marked_has_no_math(
    before: Seq<char>,
    mark: Seq<char>,
    inner: Seq<char>,
    after: Seq<char>,
)
    requires
        render_laws::is_plain(before),
        inline_laws::has_no_math(inner),
        inline_laws::has_no_math(after),
        forall|i: int| 0 <= i < mark.len() ==> #[trigger] mark[i] != '$' && mark[i] != '\\',
    ensures
        render::latex_of(before + (mark + inner + mark) + after) == before + (mark + inner + mark)
            + after,
{
    let s = before + (mark + inner + mark) + after;
    let b = before.len() as int;
    let k = mark.len() as int;
    let m = inner.len() as int;
    assert forall|i: int| 0 <= i < s.len() implies #[trigger] s[i] != '$' && s[i] != '\\' by {
        if i < b {
            assert(s[i] == before[i]);
        } else if i < b + k {
            assert(s[i] == mark[i - b]);
        } else if i < b + k + m {
            assert(s[i] == inner[i - b - k]);
            assert(inner.contains(inner[i - b - k]));
        } else if i < b + k + m + k {
            assert(s[i] == mark[i - b - k - m]);
        } else {
            assert(s[i] == after[i - b - k - m - k]);
            assert(after.contains(after[i - b - k - m - k]));
        }
    }
    inline_laws::lemma_no_math(s);
}

/// A backtick behind a backslash does not end the code that it stands in.
pub proof fn law_escaped_backtick_ends_no_code(
    before: Seq<char>,
    a: Seq<char>,
    b: Seq<char>,
    after: Seq<char>,
)
    requires
        render_laws::is_plain(before),
        !a.contains('`') && !a.contains('\\'),
        !b.contains('`') && !b.contains('\\'),
    ensures
        render::spans_from(before + ("`"@ + (a + "\\`"@ + b) + "`"@) + after, 0) == before + (
        YELLOW@ + (a + "\\`"@ + b) + RESET@) + render::spans_from(after, 0),
{
    reveal_strlit("`");
    reveal_strlit("\\`");
    let code = a + "\\`"@ + b;
    let raw = "`"@ + code + "`"@;
    let s = before + raw + after;
    let n = before.len() as int;
    let m = code.len() as int;
    let e = n + 1 + a.len();
    assert(s[n] == '`' && s[n + 1 + m] == '`');
    assert(s[e] == '\\' && s[e + 1] == '`');
    assert forall|k: int| n + 1 <= k < e implies #[trigger] s[k] != '`' && s[k] != '\\' by {
        assert(s[k] == a[k - n - 1]);
        assert(a.contains(a[k - n - 1]));
    }
    assert forall|k: int| e + 2 <= k < n + 1 + m implies #[trigger] s[k] != '`' && s[k]
        != '\\' by {
        assert(s[k] == b[k - e - 2]);
        assert(b.contains(b[k - e - 2]));
    }
    inline_laws::lemma_closing_is_at(s, '`', e + 2, n + 1 + m);
    lemma_closing_passes(s, '`', n + 1, e);
    let span = Span { style: YELLOW@, start: n + 1, end: n + 1 + m, next: n + 2 + m };
    lemma_marks_part_words();
    assert(raw.last() == '`');
    lemma_first_span(before, raw, after, span);
    assert(s.subrange(n + 1, n + 1 + m) =~= code);
}

proof fn lemma_closing_passes(s: Seq<char>, marker: char, i: int, at: int)
    requires
        0 <= i <= at < s.len(),
        s[at] == '\\',
        marker != '\\',
        forall|k: int| i <= k < at ==> #[trigger] s[k] != marker && s[k] != '\\',
    ensures
        render::closing_from(s, marker, i) == render::closing_from(s, marker, at + 2),
    decreases at - i,
{
    if i < at {
        assert(s[i] != marker && s[i] != '\\');
        lemma_closing_passes(s, marker, i + 1, at);
    }
}

// ---------------------------------------------------------------------------- math

/// Every piece of math in a line is translated: what follows one is shown as if it stood
/// alone.
pub proof fn law_pieces_of_math_follow_each_other(
    before: Seq<char>,
    math: Seq<char>,
    after: Seq<char>,
)
    requires
        inline_laws::has_no_math(before),
        math.len() > 0,
        !math.contains('$'),
        !text::contains_text(math, "\\)"@),
    ensures
        render::latex_of(before + ("$"@ + math + "$"@) + after) == before + (CYAN@
            + render::unicode_of(math) + RESET@) + render::latex_of(after),
        render::latex_of(before + ("$$"@ + math + "$$"@) + after) == before + (CYAN@
            + render::unicode_of(math) + RESET@) + render::latex_of(after),
        render::latex_of(before + ("\\("@ + math + "\\)"@) + after) == before + (CYAN@
            + render::unicode_of(math) + RESET@) + render::latex_of(after),
{
    inline_laws::lemma_math_span(before, "$"@, math, "$"@, after);
    inline_laws::lemma_math_span(before, "$$"@, math, "$$"@, after);
    inline_laws::lemma_math_span(before, "\\("@, math, "\\)"@, after);
}

/// Commands outside math are translated too, without a color.
pub proof fn law_bare_commands_are_translated(s: Seq<char>)
    requires
        !s.contains('$'),
        !text::contains_text(s, "\\("@),
        s.contains('\\'),
    ensures
        render::latex_of(s) == render::unicode_of(s),
{
    text::lemma_contains_text(s, "\\("@);
    text::lemma_char_from(s, '$', 0);
}

/// A dollar that nothing closes is a dollar.
pub proof fn law_lone_dollar_stays(before: Seq<char>, after: Seq<char>)
    requires
        inline_laws::has_no_math(before),
        inline_laws::has_no_math(after),
    ensures
        render::latex_of(before + "$"@ + after) == before + "$"@ + after,
{
    reveal_strlit("$");
    reveal_strlit("\\(");
    let s = before + "$"@ + after;
    let n = before.len() as int;
    assert(s[n] == '$');
    assert forall|i: int| 0 <= i < s.len() implies #[trigger] s[i] != '\\' && (i != n ==> s[i]
        != '$') by {
        if i < n {
            assert(before.contains(before[i]));
        } else if i > n {
            assert(s[i] == after[i - n - 1]);
            assert(after.contains(after[i - n - 1]));
        }
    }
    text_laws::lemma_char_is_at(s, '$', 0, n);
    assert(!s.contains('\\'));
    inline_laws::lemma_no_backslash_no_command(s, "\\("@);
    assert(render::math_opening(s) == Some((n, "$"@, "$"@)));
    let rest = s.skip(n + 1);
    assert(rest =~= after);
    text::lemma_occurrence_from(after, "$"@, 0);
    match text::occurrence_from(after, "$"@, 0) {
        Some(k) => {
            assert(after.subrange(k, k + 1)[0] == after[k]);
            assert(after.contains('$'));
        },
        None => {},
    }
    assert(s.take(n) =~= before);
    let tail = s.skip(n);
    assert forall|i: int| 0 <= i < tail.len() implies tail[i] != '\\' by {
        assert(tail[i] == s[n + i]);
    }
    assert(before + tail =~= s);
}

// ------------------------------------------------------------------------ commands

/// A group that holds groups ends at its own brace.
pub proof fn law_groups_nest(inner: Seq<char>, rest: Seq<char>)
    requires
        render_laws::balanced_from(inner, 0, 0),
    ensures
        render::braced(inner + seq!['}'] + rest) == Some((inner, rest)),
{
    let s = inner + seq!['}'] + rest;
    let n = inner.len() as int;
    lemma_group_ends(inner, rest, 0, 0);
    assert(s.take(n) =~= inner);
    assert(s.skip(n + 1) =~= rest);
}

proof fn lemma_group_ends(inner: Seq<char>, rest: Seq<char>, i: int, depth: int)
    requires
        0 <= i <= inner.len(),
        0 <= depth,
        render_laws::balanced_from(inner, i, depth),
    ensures
        render::brace_end(inner + seq!['}'] + rest, i, depth + 1) == Some(inner.len() as int),
    decreases inner.len() - i,
{
    let s = inner + seq!['}'] + rest;
    if i < inner.len() {
        assert(s[i] == inner[i]);
        if inner[i] == '{' {
            lemma_group_ends(inner, rest, i + 1, depth + 1);
        } else if inner[i] == '}' {
            lemma_group_ends(inner, rest, i + 1, depth - 1);
        } else {
            lemma_group_ends(inner, rest, i + 1, depth);
        }
    } else {
        assert(s[i] == '}');
    }
}

/// Every fraction is written out, whatever groups its parts hold: one that stands first
/// is, and then the rest.
pub proof fn law_fractions_are_written_out_one_by_one(
    before: Seq<char>,
    num: Seq<char>,
    den: Seq<char>,
    after: Seq<char>,
)
    requires
        inline_laws::is_literal(before),
        render_laws::balanced_from(num, 0, 0),
        render_laws::balanced_from(den, 0, 0),
    ensures
        render::fractions_replaced(before + "\\frac{"@ + num + "}{"@ + den + "}"@ + after)
            == render::fractions_replaced(before + "("@ + num + ")/("@ + den + ")"@ + after),
{
    reveal_strlit("\\frac{");
    reveal_strlit("}{");
    reveal_strlit("}");
    reveal_strlit("(");
    reveal_strlit(")/(");
    reveal_strlit(")");
    let s = before + "\\frac{"@ + num + "}{"@ + den + "}"@ + after;
    let n = before.len() as int;
    let a = num.len() as int;
    let b = den.len() as int;
    lemma_first_command_is_at(before, "\\frac{"@, num + "}{"@ + den + "}"@ + after);
    assert(s =~= before + "\\frac{"@ + (num + "}{"@ + den + "}"@ + after));
    let rest = s.skip(n + 6);
    let tail = seq!['{'] + den + seq!['}'] + after;
    assert(rest =~= num + seq!['}'] + tail);
    lemma_group_ends(num, tail, 0, 0);
    assert(rest.take(a) =~= num);
    assert(rest.skip(a + 1) =~= tail);
    assert(tail[0] == '{');
    text::lemma_leading_spaces_unique(tail, 0);
    assert(text::trimmed_start(tail) =~= tail);
    assert(tail.skip(1) =~= den + seq!['}'] + after);
    lemma_group_ends(den, after, 0, 0);
    assert((den + seq!['}'] + after).take(b) =~= den);
    assert((den + seq!['}'] + after).skip(b + 1) =~= after);
    assert(render::fraction_parts(rest) == Some((num, den, after)));
    assert(s.take(n) =~= before);
    assert(before + render::fraction_text(num, den) + after =~= before + "("@ + num + ")/("@ + den
        + ")"@ + after);
}

proof fn lemma_first_command_is_at(before: Seq<char>, name: Seq<char>, after: Seq<char>)
    requires
        inline_laws::is_literal(before),
        name.len() > 0,
        name[0] == '\\',
    ensures
        text::occurrence_from(before + name + after, name, 0) == Some(before.len() as int),
{
    let s = before + name + after;
    let n = before.len() as int;
    assert(s.subrange(n, n + name.len()) =~= name);
    assert forall|j: int| 0 <= j < n implies !text::occurs_at(s, name, j) by {
        if text::occurs_at(s, name, j) {
            assert(s.subrange(j, j + name.len())[0] == s[j]);
            assert(s[j] == before[j]);
        }
    }
    text_laws::lemma_text_is_at(s, name, 0, n);
}

/// Every command that only styles its argument gives way to it: one that stands first
/// does, and then the rest.
pub proof fn law_styling_commands_give_way(
    before: Seq<char>,
    k: int,
    inner: Seq<char>,
    after: Seq<char>,
)
    requires
        0 <= k < 6,
        inline_laws::is_literal(before),
        render_laws::balanced_from(inner, 0, 0),
    ensures
        render::unwrapped(
            before + render::WRAPPERS@[k]@ + inner + "}"@ + after,
            render::WRAPPERS@[k]@,
        ) == render::unwrapped(before + inner + after, render::WRAPPERS@[k]@),
        render::WRAPPERS@[0]@ == "\\boxed{"@,
        render::WRAPPERS@[1]@ == "\\text{"@,
        render::WRAPPERS@[2]@ == "\\mathrm{"@,
        render::WRAPPERS@[3]@ == "\\mathbf{"@,
        render::WRAPPERS@[4]@ == "\\mathit{"@,
        render::WRAPPERS@[5]@ == "\\operatorname{"@,
{
    reveal_strlit("}");
    let name = render::WRAPPERS@[k]@;
    lemma_wrapper_is_command(k);
    let s = before + name + inner + "}"@ + after;
    let n = before.len() as int;
    let m = inner.len() as int;
    assert(s =~= before + name + (inner + "}"@ + after));
    lemma_first_command_is_at(before, name, inner + "}"@ + after);
    let rest = s.skip(n + name.len());
    assert(rest =~= inner + seq!['}'] + after);
    lemma_group_ends(inner, after, 0, 0);
    assert(rest.take(m) =~= inner);
    assert(rest.skip(m + 1) =~= after);
    assert(s.take(n) =~= before);
}

proof fn lemma_wrapper_is_command(k: int)
    requires
        0 <= k < 6,
    ensures
        render::WRAPPERS@[k]@.len() > 0,
        render::WRAPPERS@[k]@[0] == '\\',
{
    reveal_strlit("\\boxed{");
    reveal_strlit("\\text{");
    reveal_strlit("\\mathrm{");
    reveal_strlit("\\mathbf{");
    reveal_strlit("\\mathit{");
    reveal_strlit("\\operatorname{");
}

// ------------------------------------------------------------------------- scripts

proof fn lemma_char_moves(p: Seq<char>, a: Seq<char>, c: char, i: int)
    requires
        0 <= i,
    ensures
        text::char_from(p + a, c, p.len() + i) == moved(text::char_from(a, c, i), p.len() as int),
    decreases a.len() + 1 - i,
{
    if i < a.len() {
        assert((p + a)[p.len() + i] == a[i]);
        if a[i] != c {
            lemma_char_moves(p, a, c, i + 1);
        }
    }
}

proof fn lemma_scripts_move(
    p: Seq<char>,
    a: Seq<char>,
    i: int,
    marker: char,
    table: Seq<(char, char)>,
)
    requires
        0 <= i <= a.len(),
    ensures
        render::scripts_from(p + a, p.len() + i, marker, table) == render::scripts_from(
            a,
            i,
            marker,
            table,
        ),
    decreases a.len() - i,
{
    let s = p + a;
    let n = p.len() as int;
    if i < a.len() {
        assert(s[n + i] == a[i]);
        if a[i] == marker && i + 1 < a.len() {
            assert(s[n + i + 1] == a[i + 1]);
            lemma_char_moves(p, a, '}', i + 2);
            text::lemma_char_from(a, '}', i + 2);
            let (argument, next) = render::script_argument(a, i);
            let (moved_argument, moved_next) = render::script_argument(s, n + i);
            assert(moved_next == n + next);
            assert(moved_argument =~= argument);
            lemma_scripts_move(p, a, next, marker, table);
        } else {
            lemma_scripts_move(p, a, i + 1, marker, table);
        }
    }
}

/// Every script is converted: a character behind the mark becomes its script form where
/// it has one and else stays behind its mark, and what follows is converted as if it
/// stood alone.
pub proof fn law_scripts_follow_each_other(
    before: Seq<char>,
    c: char,
    after: Seq<char>,
    marker: char,
    table: Seq<(char, char)>,
)
    requires
        !before.contains(marker),
        c != '{',
    ensures
        render::scripts_from(before + seq![marker, c] + after, 0, marker, table) == before + (
        match render::script_form(table, c) {
            Some(f) => seq![f],
            None => seq![marker, c],
        }) + render::scripts_from(after, 0, marker, table),
{
    let s = before + seq![marker, c] + after;
    let n = before.len() as int;
    assert forall|k: int| 0 <= k < n implies #[trigger] s[k] != marker by {
        assert(s[k] == before[k]);
        assert(before.contains(before[k]));
    }
    inline_laws::lemma_scripts_up_to(s, 0, n, marker, table);
    assert(s.subrange(0, n) =~= before);
    assert(s[n] == marker && s[n + 1] == c);
    assert(render::script_argument(s, n) == (seq![c], n + 2));
    lemma_scripts_move(before + seq![marker, c], after, 0, marker, table);
    assert(seq![c].drop_last() =~= Seq::<char>::empty());
    assert(render::script_text(table, Seq::empty()) == Some(Seq::<char>::empty()));
    match render::script_form(table, c) {
        Some(f) => {
            assert(Seq::<char>::empty().push(f) =~= seq![f]);
            assert(render::script_text(table, seq![c]) == Some(seq![f]));
        },
        None => {
            assert(render::script_text(table, seq![c]) is None);
            assert(seq![marker] + seq![c] =~= seq![marker, c]);
        },
    }
    let piece = render::script_piece(marker, table, seq![c]);
    let rest = render::scripts_from(after, 0, marker, table);
    assert(render::scripts_from(s, n, marker, table) == piece + rest);
    assert(before + (piece + rest) =~= before + piece + rest);
}

/// The signs, brackets and letters that have script forms.
pub proof fn law_script_signs()
    ensures
        render::script_form(render::SUPERSCRIPTS@, '+') == Some('⁺'),
        render::script_form(render::SUPERSCRIPTS@, '-') == Some('⁻'),
        render::script_form(render::SUPERSCRIPTS@, '=') == Some('⁼'),
        render::script_form(render::SUPERSCRIPTS@, '(') == Some('⁽'),
        render::script_form(render::SUPERSCRIPTS@, ')') == Some('⁾'),
        render::script_form(render::SUPERSCRIPTS@, 'n') == Some('ⁿ'),
        render::script_form(render::SUPERSCRIPTS@, 'i') == Some('ⁱ'),
        render::script_form(render::SUBSCRIPTS@, '+') == Some('₊'),
        render::script_form(render::SUBSCRIPTS@, '-') == Some('₋'),
        render::script_form(render::SUBSCRIPTS@, '=') == Some('₌'),
        render::script_form(render::SUBSCRIPTS@, '(') == Some('₍'),
        render::script_form(render::SUBSCRIPTS@, ')') == Some('₎'),
{
    inline_laws::lemma_form_is_first(render::SUPERSCRIPTS@, 10, '+');
    inline_laws::lemma_form_is_first(render::SUPERSCRIPTS@, 11, '-');
    inline_laws::lemma_form_is_first(render::SUPERSCRIPTS@, 12, '=');
    inline_laws::lemma_form_is_first(render::SUPERSCRIPTS@, 13, '(');
    inline_laws::lemma_form_is_first(render::SUPERSCRIPTS@, 14, ')');
    inline_laws::lemma_form_is_first(render::SUPERSCRIPTS@, 15, 'n');
    inline_laws::lemma_form_is_first(render::SUPERSCRIPTS@, 16, 'i');
    inline_laws::lemma_form_is_first(render::SUBSCRIPTS@, 10, '+');
    inline_laws::lemma_form_is_first(render::SUBSCRIPTS@, 11, '-');
    inline_laws::lemma_form_is_first(render::SUBSCRIPTS@, 12, '=');
    inline_laws::lemma_form_is_first(render::SUBSCRIPTS@, 13, '(');
    inline_laws::lemma_form_is_first(render::SUBSCRIPTS@, 14, ')');
}

} // verus!

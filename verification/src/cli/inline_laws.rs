//! What holds of inline text: emphasis, code, math and its symbols.
use crate::cli::render;
use crate::cli::render::Span;
use crate::cli::render_laws;
use crate::cli::style::{BOLD, CYAN, ITALIC, RESET, YELLOW};
use crate::number;
use crate::text;
use crate::text_laws;
use vstd::prelude::*;

verus! {

// ----------------------------------------------------------------------- emphasis

/// A text without math and without commands.
pub open spec fn has_no_math(s: Seq<char>) -> bool {
    !s.contains('$') && !s.contains('\\')
}

/// A text without math and commands has nothing to translate.
pub proof fn lemma_no_math(s: Seq<char>)
    requires
        has_no_math(s),
    ensures
        render::latex_of(s) == s,
{
    text::lemma_char_from(s, '$', 0);
    if let Some(k) = text::char_from(s, '$', 0) {
        assert(s.contains(s[k]));
    }
    reveal_strlit("\\(");
    text::lemma_occurrence_from(s, "\\("@, 0);
    if let Some(k) = text::occurrence_from(s, "\\("@, 0) {
        assert(s.subrange(k, k + 2)[0] == s[k]);
        assert(s.contains(s[k]));
    }
}

/// Text without marks is copied up to `j`.
pub proof fn lemma_unmarked_run(s: Seq<char>, i: int, j: int)
    requires
        0 <= i <= j <= s.len(),
        forall|k: int| i <= k < j ==> #[trigger] s[k] != '`' && s[k] != '*' && s[k] != '_',
    ensures
        render::spans_from(s, i) == s.subrange(i, j) + render::spans_from(s, j),
    decreases j - i,
{
    if i < j {
        lemma_unmarked_run(s, i + 1, j);
        assert(s.subrange(i, j) =~= seq![s[i]] + s.subrange(i + 1, j));
        assert(render::span_at(s, i) is None);
        assert(render::spans_from(s, i) =~= s.subrange(i, j) + render::spans_from(s, j));
    } else {
        assert(s.subrange(i, j) + render::spans_from(s, j) =~= render::spans_from(s, j));
    }
}

/// One span between two stretches of plain text.
proof fn lemma_one_span(before: Seq<char>, raw: Seq<char>, after: Seq<char>, span: Span)
    requires
        render_laws::is_plain(before),
        render_laws::is_plain(after),
        has_no_math(raw),
        raw.len() > 0,
        render::span_at(before + raw + after, before.len() as int) == Some(span),
        span.next == before.len() + raw.len(),
        before.len() <= span.start <= span.end <= before.len() + raw.len(),
    ensures
        render::inline_of(before + raw + after) == before + (span.style + (before + raw
            + after).subrange(span.start, span.end) + RESET@) + after,
{
    let s = before + raw + after;
    let n = before.len() as int;
    assert forall|i: int| 0 <= i < s.len() implies s[i] != '$' && s[i] != '\\' by {
        if i < n {
            assert(s[i] == before[i]);
        } else if i < n + raw.len() {
            assert(raw.contains(raw[i - n]));
        } else {
            assert(s[i] == after[i - n - raw.len()]);
        }
    }
    lemma_no_math(s);
    assert forall|k: int| 0 <= k < n implies #[trigger] s[k] != '`' && s[k] != '*' && s[k] != '_' by {
        assert(s[k] == before[k]);
    }
    lemma_unmarked_run(s, 0, n);
    assert forall|k: int| span.next <= k < s.len() implies #[trigger] s[k] != '`' && s[k] != '*'
        && s[k] != '_' by {
        assert(s[k] == after[k - span.next]);
    }
    lemma_unmarked_run(s, span.next, s.len() as int);
    assert(s.subrange(0, n) =~= before);
    assert(s.subrange(span.next, s.len() as int) =~= after);
    assert(render::spans_from(s, s.len() as int) =~= Seq::<char>::empty());
    assert(render::spans_from(s, span.next) =~= after);
    assert(render::inline_of(s) =~= before + (span.style + s.subrange(span.start, span.end)
        + RESET@) + after);
}

/// What stands between backticks is shown in yellow, character by character as it is,
/// and the text around it stays.
pub proof fn law_code_is_shown_as_it_is(before: Seq<char>, code: Seq<char>, after: Seq<char>)
    requires
        render_laws::is_plain(before),
        render_laws::is_plain(after),
        has_no_math(code),
        !code.contains('`'),
    ensures
        render::inline_of(before + ("`"@ + code + "`"@) + after) == before + (YELLOW@ + code
            + RESET@) + after,
{
    reveal_strlit("`");
    let raw = "`"@ + code + "`"@;
    let s = before + raw + after;
    let n = before.len() as int;
    lemma_raw_has_no_math(raw, code, 1);
    lemma_closing_is_at(s, '`', n + 1, n + 1 + code.len());
    let span = Span { style: YELLOW@, start: n + 1, end: n + 1 + code.len(), next: n + raw.len() };
    assert(s[n] == '`');
    assert(render::span_at(s, n) == Some(span));
    lemma_one_span(before, raw, after, span);
    assert(s.subrange(span.start, span.end) =~= code);
}

proof fn lemma_raw_has_no_math(raw: Seq<char>, inner: Seq<char>, lead: int)
    requires
        has_no_math(inner),
        0 <= lead,
        raw.len() == inner.len() + 2 * lead,
        forall|i: int| 0 <= i < inner.len() ==> raw[lead + i] == #[trigger] inner[i],
        forall|i: int|
            (0 <= i < lead || lead + inner.len() <= i < raw.len()) ==> #[trigger] raw[i] != '$'
                && raw[i] != '\\',
    ensures
        has_no_math(raw),
{
    assert forall|i: int| 0 <= i < raw.len() implies raw[i] != '$' && raw[i] != '\\' by {
        if lead <= i < lead + inner.len() {
            assert(inner.contains(inner[i - lead]));
            assert(raw[lead + (i - lead)] == inner[i - lead]);
        }
    }
}

/// The search for a closing marker ends at the first one that no backslash hides.
pub proof fn lemma_closing_is_at(s: Seq<char>, marker: char, i: int, at: int)
    requires
        0 <= i <= at < s.len(),
        s[at] == marker,
        forall|k: int| i <= k < at ==> #[trigger] s[k] != marker && s[k] != '\\',
    ensures
        render::closing_from(s, marker, i) == Some(at),
    decreases at - i,
{
    if i < at {
        assert(s[i] != marker && s[i] != '\\');
        lemma_closing_is_at(s, marker, i + 1, at);
    }
}

/// What stands between pairs of asterisks is shown bold, and between single ones in
/// italics; the text around it stays.
pub proof fn law_emphasis_is_styled(before: Seq<char>, inner: Seq<char>, after: Seq<char>)
    requires
        render_laws::is_plain(before),
        render_laws::is_plain(after),
        has_no_math(inner),
        !inner.contains('*'),
        inner.len() > 0,
    ensures
        render::inline_of(before + ("**"@ + inner + "**"@) + after) == before + (BOLD@ + inner
            + RESET@) + after,
        render::inline_of(before + ("*"@ + inner + "*"@) + after) == before + (ITALIC@ + inner
            + RESET@) + after,
{
    reveal_strlit("**");
    reveal_strlit("*");
    let n = before.len() as int;
    let m = inner.len() as int;
    let raw = "**"@ + inner + "**"@;
    let s = before + raw + after;
    assert forall|k: int| 0 <= k < m implies #[trigger] inner[k] != '*' by {
        assert(inner.contains(inner[k]));
    }
    lemma_raw_has_no_math(raw, inner, 2);
    assert(s[n] == '*' && s[n + 1] == '*');
    assert(s.subrange(n + 2 + m, n + 4 + m) =~= "**"@);
    assert forall|j: int| n + 2 <= j < n + 2 + m implies !text::occurs_at(s, "**"@, j) by {
        if text::occurs_at(s, "**"@, j) {
            assert(s.subrange(j, j + 2)[0] == s[j]);
            assert(s[j] == inner[j - n - 2]);
        }
    }
    text_laws::lemma_text_is_at(s, "**"@, n + 2, n + 2 + m);
    let span = Span { style: BOLD@, start: n + 2, end: n + 2 + m, next: n + raw.len() };
    assert(render::span_at(s, n) == Some(span));
    lemma_one_span(before, raw, after, span);
    assert(s.subrange(span.start, span.end) =~= inner);
    let raw1 = "*"@ + inner + "*"@;
    let s1 = before + raw1 + after;
    lemma_raw_has_no_math(raw1, inner, 1);
    assert(s1[n] == '*' && s1[n + 1] == inner[0]);
    assert forall|k: int| n + 1 <= k < n + 1 + m implies #[trigger] s1[k] != '*' && s1[k] != '\\' by {
        assert(s1[k] == inner[k - n - 1]);
        assert(inner.contains(inner[k - n - 1]));
    }
    lemma_closing_is_at(s1, '*', n + 1, n + 1 + m);
    let span1 = Span { style: ITALIC@, start: n + 1, end: n + 1 + m, next: n + raw1.len() };
    assert(s1.subrange(n + 1, n + 1 + m) =~= inner);
    assert(render::span_at(s1, n) == Some(span1));
    lemma_one_span(before, raw1, after, span1);
}

/// What stands between underscores that touch no word outside is shown in italics.
pub proof fn law_underscored_text_is_in_italics(
    before: Seq<char>,
    inner: Seq<char>,
    after: Seq<char>,
)
    requires
        render_laws::is_plain(before),
        render_laws::is_plain(after),
        has_no_math(inner),
        !inner.contains('_'),
        inner.len() > 0,
        before.len() > 0 ==> !text::is_word(before.last()),
        after.len() > 0 ==> !text::is_word(after[0]),
    ensures
        render::inline_of(before + ("_"@ + inner + "_"@) + after) == before + (ITALIC@ + inner
            + RESET@) + after,
{
    reveal_strlit("_");
    let n = before.len() as int;
    let m = inner.len() as int;
    let raw = "_"@ + inner + "_"@;
    let s = before + raw + after;
    lemma_raw_has_no_math(raw, inner, 1);
    assert(s[n] == '_');
    assert forall|k: int| n + 1 <= k < n + 1 + m implies #[trigger] s[k] != '_' && s[k] != '\\' by {
        assert(s[k] == inner[k - n - 1]);
        assert(inner.contains(inner[k - n - 1]));
    }
    lemma_closing_is_at(s, '_', n + 1, n + 1 + m);
    assert(s.subrange(n + 1, n + 1 + m) =~= inner);
    if n > 0 {
        assert(s[n - 1] == before.last());
    }
    if after.len() > 0 {
        assert(s[n + 2 + m] == after[0]);
    }
    let span = Span { style: ITALIC@, start: n + 1, end: n + 1 + m, next: n + raw.len() };
    assert(render::span_at(s, n) == Some(span));
    lemma_one_span(before, raw, after, span);
}

// --------------------------------------------------------------------------- math

/// Math between dollars, or between escaped parentheses, is translated and shown in
/// cyan without its delimiters; the text around it stays as it is.
pub proof fn law_math_is_translated_in_place(
    before: Seq<char>,
    math: Seq<char>,
    after: Seq<char>,
)
    requires
        has_no_math(before),
        has_no_math(after),
        math.len() > 0,
        !math.contains('$'),
        !text::contains_text(math, "\\)"@),
    ensures
        render::latex_of(before + ("$"@ + math + "$"@) + after) == before + (CYAN@
            + render::unicode_of(math) + RESET@) + after,
        render::latex_of(before + ("$$"@ + math + "$$"@) + after) == before + (CYAN@
            + render::unicode_of(math) + RESET@) + after,
        render::latex_of(before + ("\\("@ + math + "\\)"@) + after) == before + (CYAN@
            + render::unicode_of(math) + RESET@) + after,
{
    reveal_strlit("$");
    reveal_strlit("$$");
    reveal_strlit("\\(");
    reveal_strlit("\\)");
    lemma_no_math(after);
    lemma_math_span(before, "$"@, math, "$"@, after);
    lemma_math_span(before, "$$"@, math, "$$"@, after);
    lemma_math_span(before, "\\("@, math, "\\)"@, after);
}

/// The first piece of math in a line is translated, and what follows is shown as if it
/// stood alone.
pub proof fn lemma_math_span(
    before: Seq<char>,
    open: Seq<char>,
    math: Seq<char>,
    close: Seq<char>,
    after: Seq<char>,
)
    requires
        has_no_math(before),
        math.len() > 0,
        !math.contains('$'),
        !text::contains_text(math, "\\)"@),
        (open == "$"@ && close == "$"@) || (open == "$$"@ && close == "$$"@) || (open == "\\("@
            && close == "\\)"@),
    ensures
        render::latex_of(before + (open + math + close) + after) == before + (CYAN@
            + render::unicode_of(math) + RESET@) + render::latex_of(after),
{
    reveal_strlit("$");
    reveal_strlit("$$");
    reveal_strlit("\\(");
    reveal_strlit("\\)");
    let n = before.len() as int;
    let m = math.len() as int;
    let o = open.len() as int;
    let c = close.len() as int;
    let s = before + (open + math + close) + after;
    assert forall|i: int| 0 <= i < n implies #[trigger] s[i] != '$' && s[i] != '\\' by {
        assert(before.contains(before[i]));
    }
    assert(s[n] == open[0]);
    assert forall|k: int| 0 <= k < m implies #[trigger] math[k] != '$' by {
        assert(math.contains(math[k]));
    }
    assert forall|j: int| 0 <= j < n implies !text::occurs_at(s, "\\("@, j) by {
        if text::occurs_at(s, "\\("@, j) {
            assert(s.subrange(j, j + 2)[0] == s[j]);
        }
    }
    text::lemma_occurrence_from(s, "\\("@, 0);
    text::lemma_char_from(s, '$', 0);
    if open == "\\("@ {
        assert(s.subrange(n, n + 2) =~= "\\("@);
        text_laws::lemma_text_is_at(s, "\\("@, 0, n);
    } else {
        text_laws::lemma_char_is_at(s, '$', 0, n);
        if open == "$"@ {
            assert(s[n + 1] == math[0]);
        } else {
            assert(s[n + 1] == '$');
        }
        if text::occurs_at(s, "\\("@, n) {
            assert(s.subrange(n, n + 2)[0] == s[n]);
        }
    }
    assert(render::math_opening(s) == Some((n, open, close)));
    let rest = s.skip(n + o);
    assert(rest =~= math + close + after);
    assert(rest.subrange(m, m + c) =~= close);
    assert forall|j: int| 0 <= j < m implies !text::occurs_at(rest, close, j) by {
        if text::occurs_at(rest, close, j) {
            assert(rest.subrange(j, j + c)[0] == rest[j]);
            assert(rest[j] == math[j]);
            if close == "\\)"@ {
                assert(rest.subrange(j, j + c)[1] == rest[j + 1]);
                if j + 1 < m {
                    assert(math.subrange(j, j + 2) =~= "\\)"@);
                    assert(text::occurs_at(math, "\\)"@, j));
                } else {
                    assert(rest[j + 1] == close[0]);
                }
            }
        }
    }
    text_laws::lemma_text_is_at(rest, close, 0, m);
    assert(rest.take(m) =~= math);
    assert(rest.skip(m + c) =~= after);
    assert(s.take(n) =~= before);
    assert(render::bare_of(before) == before);
}

// ------------------------------------------------------------ commands and scripts

proof fn lemma_wrappers_are_commands(k: int)
    requires
        0 <= k < 6,
    ensures
        render::WRAPPERS@[k]@.len() > 2,
        render::WRAPPERS@[k]@[0] == '\\',
        render::WRAPPERS@[k]@[1] != 'f',
{
    reveal_strlit("\\boxed{");
    reveal_strlit("\\text{");
    reveal_strlit("\\mathrm{");
    reveal_strlit("\\mathbf{");
    reveal_strlit("\\mathit{");
    reveal_strlit("\\operatorname{");
}

/// A pattern that begins with a backslash does not stand in a text without one.
pub proof fn lemma_no_backslash_no_command(s: Seq<char>, pat: Seq<char>)
    requires
        !s.contains('\\'),
        pat.len() > 0,
        pat[0] == '\\',
    ensures
        text::occurrence_from(s, pat, 0) is None,
{
    text::lemma_occurrence_from(s, pat, 0);
    if let Some(k) = text::occurrence_from(s, pat, 0) {
        assert(s.subrange(k, k + pat.len())[0] == s[k]);
        assert(s.contains(s[k]));
    }
}

proof fn lemma_wrappers_leave(s: Seq<char>, k: nat)
    requires
        !s.contains('\\'),
        k <= 6,
    ensures
        render::wrappers_stripped(s, k) == s,
    decreases k,
{
    if k > 0 {
        lemma_wrappers_leave(s, (k - 1) as nat);
        lemma_wrappers_are_commands(k - 1);
        lemma_no_backslash_no_command(s, render::WRAPPERS@[k - 1]@);
    }
}

proof fn lemma_symbols_leave(s: Seq<char>, k: nat)
    requires
        !s.contains('\\'),
        k <= 74,
    ensures
        render::symbols_replaced(s, k) == s,
    decreases k,
{
    if k > 0 {
        lemma_symbols_leave(s, (k - 1) as nat);
        lemma_symbol_is_command(k - 1);
        lemma_no_backslash_no_command(s, render::SYMBOLS@[k - 1].0@);
    }
}

/// The name of a symbol is a command: a backslash, and none behind it.
#[verifier::rlimit(60)]
#[verifier::spinoff_prover]
proof fn lemma_symbol_is_command(k: int)
    requires
        0 <= k < 74,
    ensures
        render::SYMBOLS@[k].0@.len() >= 2,
        render::SYMBOLS@[k].0@[0] == '\\',
{
    reveal_strlit("\\alpha");
    reveal_strlit("\\beta");
    reveal_strlit("\\gamma");
    reveal_strlit("\\delta");
    reveal_strlit("\\epsilon");
    reveal_strlit("\\varepsilon");
    reveal_strlit("\\zeta");
    reveal_strlit("\\eta");
    reveal_strlit("\\theta");
    reveal_strlit("\\iota");
    reveal_strlit("\\kappa");
    reveal_strlit("\\lambda");
    reveal_strlit("\\mu");
    reveal_strlit("\\nu");
    reveal_strlit("\\xi");
    reveal_strlit("\\pi");
    reveal_strlit("\\rho");
    reveal_strlit("\\sigma");
    reveal_strlit("\\tau");
    reveal_strlit("\\phi");
    reveal_strlit("\\varphi");
    reveal_strlit("\\chi");
    reveal_strlit("\\psi");
    reveal_strlit("\\omega");
    reveal_strlit("\\Gamma");
    reveal_strlit("\\Delta");
    reveal_strlit("\\Theta");
    reveal_strlit("\\Lambda");
    reveal_strlit("\\Pi");
    reveal_strlit("\\Sigma");
    reveal_strlit("\\Phi");
    reveal_strlit("\\Psi");
    reveal_strlit("\\Omega");
    reveal_strlit("\\times");
    reveal_strlit("\\cdots");
    reveal_strlit("\\cdot");
    reveal_strlit("\\div");
    reveal_strlit("\\pm");
    reveal_strlit("\\leq");
    reveal_strlit("\\geq");
    reveal_strlit("\\neq");
    reveal_strlit("\\approx");
    reveal_strlit("\\equiv");
    reveal_strlit("\\propto");
    reveal_strlit("\\infty");
    reveal_strlit("\\rightarrow");
    reveal_strlit("\\to");
    reveal_strlit("\\leftarrow");
    reveal_strlit("\\Rightarrow");
    reveal_strlit("\\Leftarrow");
    reveal_strlit("\\leftrightarrow");
    reveal_strlit("\\sum");
    reveal_strlit("\\prod");
    reveal_strlit("\\int");
    reveal_strlit("\\partial");
    reveal_strlit("\\nabla");
    reveal_strlit("\\sqrt");
    reveal_strlit("\\forall");
    reveal_strlit("\\exists");
    reveal_strlit("\\in");
    reveal_strlit("\\notin");
    reveal_strlit("\\subset");
    reveal_strlit("\\cup");
    reveal_strlit("\\cap");
    reveal_strlit("\\emptyset");
    reveal_strlit("\\angle");
    reveal_strlit("\\degree");
    reveal_strlit("\\ldots");
    reveal_strlit("\\left");
    reveal_strlit("\\right");
    reveal_strlit("\\,");
    reveal_strlit("\\;");
    reveal_strlit("\\!");
    reveal_strlit("\\quad");
}

/// A text without the mark has no scripts.
pub proof fn lemma_scripts_leave(s: Seq<char>, i: int, marker: char, table: Seq<(char, char)>)
    requires
        !s.contains(marker),
        0 <= i <= s.len(),
    ensures
        render::scripts_from(s, i, marker, table) == s.skip(i),
    decreases s.len() - i,
{
    if i < s.len() {
        lemma_scripts_leave(s, i + 1, marker, table);
        assert(s.contains(s[i]));
        assert(s.skip(i) =~= seq![s[i]] + s.skip(i + 1));
    } else {
        assert(s.skip(i) =~= Seq::<char>::empty());
    }
}

/// A text without braces loses none.
pub proof fn lemma_braces_leave(s: Seq<char>)
    requires
        !s.contains('{'),
        !s.contains('}'),
    ensures
        text::replaced_chars(s, seq!['{', '}'], Seq::empty()) == s,
    decreases s.len(),
{
    if s.len() > 0 {
        let front = s.drop_last();
        assert forall|i: int| 0 <= i < front.len() implies front[i] != '{' && front[i] != '}' by {
            assert(s.contains(s[i]));
        }
        lemma_braces_leave(front);
        let set = seq!['{', '}'];
        assert(s.contains(s.last()));
        if set.contains(s.last()) {
            assert(s.last() == '{' || s.last() == '}');
        }
        assert(text::replaced_chars(s, set, Seq::empty()) =~= s);
    }
}

/// A text without commands, scripts and braces.
pub open spec fn is_literal(s: Seq<char>) -> bool {
    forall|i: int|
        0 <= i < s.len() ==> {
            let c = #[trigger] s[i];
            c != '\\' && c != '^' && c != '_' && c != '{' && c != '}'
        }
}

/// Nothing in a literal text is translated.
pub proof fn lemma_literal_stays(s: Seq<char>)
    requires
        is_literal(s),
    ensures
        render::fractions_replaced(render::wrappers_stripped(s, 6)) == s,
        render::unicode_of(s) == s,
{
    assert(!s.contains('\\') && !s.contains('^') && !s.contains('_') && !s.contains('{')
        && !s.contains('}'));
    lemma_wrappers_leave(s, 6);
    reveal_strlit("\\frac{");
    lemma_no_backslash_no_command(s, "\\frac{"@);
    lemma_symbols_leave(s, 74);
    lemma_scripts_leave(s, 0, '^', render::SUPERSCRIPTS@);
    assert(s.skip(0) =~= s);
    lemma_scripts_leave(s, 0, '_', render::SUBSCRIPTS@);
    lemma_braces_leave(s);
}

/// Math without commands, scripts and braces is shown as it is.
pub proof fn law_literal_math_stays(s: Seq<char>)
    requires
        is_literal(s),
    ensures
        render::unicode_of(s) == s,
{
    lemma_literal_stays(s);
}

/// A command can only stand where the one backslash of a text is.
pub proof fn lemma_only_backslash_is_at(s: Seq<char>, at: int, pat: Seq<char>)
    requires
        0 <= at < s.len(),
        forall|i: int| 0 <= i < s.len() && i != at ==> #[trigger] s[i] != '\\',
        pat.len() > 0,
        pat[0] == '\\',
    ensures
        text::occurrence_from(s, pat, 0) matches Some(k) ==> k == at,
        text::occurs_at(s, pat, at) ==> text::occurrence_from(s, pat, 0) == Some(at),
{
    text::lemma_occurrence_from(s, pat, 0);
    if let Some(k) = text::occurrence_from(s, pat, 0) {
        assert(s.subrange(k, k + pat.len())[0] == s[k]);
    }
}

proof fn lemma_fraction_is_no_wrapper(s: Seq<char>, at: int, k: nat)
    requires
        0 <= at < s.len() - 1,
        s[at] == '\\',
        s[at + 1] == 'f',
        forall|i: int| 0 <= i < s.len() && i != at ==> #[trigger] s[i] != '\\',
        k <= 6,
    ensures
        render::wrappers_stripped(s, k) == s,
    decreases k,
{
    if k > 0 {
        lemma_fraction_is_no_wrapper(s, at, (k - 1) as nat);
        lemma_wrappers_are_commands(k - 1);
        let pat = render::WRAPPERS@[k - 1]@;
        text::lemma_occurrence_from(s, pat, 0);
        lemma_only_backslash_is_at(s, at, pat);
        if let Some(p) = text::occurrence_from(s, pat, 0) {
            assert(s.subrange(p, p + pat.len())[1] == s[p + 1]);
        }
    }
}

proof fn lemma_group_closes(inner: Seq<char>, rest: Seq<char>, i: int)
    requires
        is_literal(inner),
        0 <= i <= inner.len(),
    ensures
        render::brace_end(inner + seq!['}'] + rest, i, 1) == Some(inner.len() as int),
    decreases inner.len() - i,
{
    let s = inner + seq!['}'] + rest;
    if i < inner.len() {
        assert(s[i] == inner[i]);
        lemma_group_closes(inner, rest, i + 1);
    } else {
        assert(s[i] == '}');
    }
}

/// A fraction is written out in one line, its numerator and its denominator each in
/// parentheses, wherever it stands.
pub proof fn law_fraction_is_written_out(
    before: Seq<char>,
    num: Seq<char>,
    den: Seq<char>,
    after: Seq<char>,
)
    requires
        is_literal(before),
        is_literal(num),
        is_literal(den),
        is_literal(after),
    ensures
        render::unicode_of(before + "\\frac{"@ + num + "}{"@ + den + "}"@ + after) == before + "("@
            + num + ")/("@ + den + ")"@ + after,
{
    reveal_strlit("\\frac{");
    reveal_strlit("}{");
    reveal_strlit("}");
    reveal_strlit("(");
    reveal_strlit(")/(");
    reveal_strlit(")");
    let s = before + "\\frac{"@ + num + "}{"@ + den + "}"@ + after;
    let n = before.len() as int;
    let a = num.len() as int;
    let b = den.len() as int;
    assert(s.len() == n + 6 + a + 2 + b + 1 + after.len());
    assert(s[n] == '\\' && s[n + 1] == 'f');
    assert forall|i: int| 0 <= i < s.len() && i != n implies #[trigger] s[i] != '\\' by {
        if i < n {
            assert(s[i] == before[i]);
        } else if n + 6 <= i < n + 6 + a {
            assert(s[i] == num[i - n - 6]);
        } else if n + 8 + a <= i < n + 8 + a + b {
            assert(s[i] == den[i - n - 8 - a]);
        } else if i >= n + 9 + a + b {
            assert(s[i] == after[i - n - 9 - a - b]);
        }
    }
    lemma_fraction_is_no_wrapper(s, n, 6);
    assert(s.subrange(n, n + 6) =~= "\\frac{"@);
    lemma_only_backslash_is_at(s, n, "\\frac{"@);
    let rest = s.skip(n + 6);
    let tail = seq!['{'] + den + seq!['}'] + after;
    assert(rest =~= num + seq!['}'] + tail);
    lemma_group_closes(num, tail, 0);
    assert(rest.take(a) =~= num);
    assert(rest.skip(a + 1) =~= tail);
    assert(tail[0] == '{');
    text::lemma_leading_spaces_unique(tail, 0);
    assert(text::trimmed_start(tail) =~= tail);
    assert(tail.skip(1) =~= den + seq!['}'] + after);
    lemma_group_closes(den, after, 0);
    assert((den + seq!['}'] + after).take(b) =~= den);
    assert((den + seq!['}'] + after).skip(b + 1) =~= after);
    assert(render::fraction_parts(rest) == Some((num, den, after)));
    assert(s.take(n) =~= before);
    let out = before + render::fraction_text(num, den) + after;
    assert(out =~= before + "("@ + num + ")/("@ + den + ")"@ + after);
    assert forall|i: int| 0 <= i < out.len() implies {
        let c = #[trigger] out[i];
        c != '\\' && c != '^' && c != '_' && c != '{' && c != '}'
    } by {
        if i < n {
            assert(out[i] == before[i]);
        } else if n + 1 <= i < n + 1 + a {
            assert(out[i] == num[i - n - 1]);
        } else if n + 4 + a <= i < n + 4 + a + b {
            assert(out[i] == den[i - n - 4 - a]);
        } else if i >= n + 5 + a + b {
            assert(out[i] == after[i - n - 5 - a - b]);
        }
    }
    lemma_literal_stays(out);
    lemma_no_backslash_no_command(out, "\\frac{"@);
    assert(render::fractions_replaced(s) == render::fractions_replaced(out));
}

/// The raised digits: those of the Unicode block of super- and subscripts, where one, two
/// and three have older places of their own; the lowered ones in a row.
pub proof fn law_script_digits(c: char)
    requires
        number::is_digit(c),
    ensures
        render::script_form(render::SUBSCRIPTS@, c) matches Some(f) && f as u32 == 0x2080 + (c as u32
            - '0' as u32),
        render::script_form(render::SUPERSCRIPTS@, c) matches Some(f) && (c == '1' ==> f as u32
            == 0xb9) && (c == '2' || c == '3' ==> f as u32 == 0xb0 + (c as u32 - '0' as u32)) && (c
            == '0' || c >= '4' ==> f as u32 == 0x2070 + (c as u32 - '0' as u32)),
{
    lemma_table_entry(render::SUBSCRIPTS@, c as int - '0' as int, c);
    lemma_table_entry(render::SUPERSCRIPTS@, c as int - '0' as int, c);
    let k = c as int - '0' as int;
    assert(k == 0 || k == 1 || k == 2 || k == 3 || k == 4 || k == 5 || k == 6 || k == 7 || k == 8
        || k == 9);
}

/// A digit stands in the tables at its own place.
proof fn lemma_table_entry(table: Seq<(char, char)>, k: int, c: char)
    requires
        0 <= k < 10,
        c as int == '0' as int + k,
        table == render::SUBSCRIPTS@ || table == render::SUPERSCRIPTS@,
    ensures
        render::script_form(table, c) == Some(table[k].1),
{
    assert(k == 0 || k == 1 || k == 2 || k == 3 || k == 4 || k == 5 || k == 6 || k == 7 || k == 8
        || k == 9);
    assert forall|j: int| 0 <= j < k implies (#[trigger] table[j]).0 != c by {
        assert(j == 0 || j == 1 || j == 2 || j == 3 || j == 4 || j == 5 || j == 6 || j == 7 || j
            == 8);
    }
    assert(table[k].0 == c);
    lemma_form_is_first(table, k, c);
}

/// The first entry for a character gives its script form.
pub proof fn lemma_form_is_first(table: Seq<(char, char)>, k: int, c: char)
    requires
        0 <= k < table.len(),
        table[k].0 == c,
        forall|j: int| 0 <= j < k ==> (#[trigger] table[j]).0 != c,
    ensures
        render::script_form(table, c) == Some(table[k].1),
    decreases k,
{
    if k > 0 {
        let rest = table.skip(1);
        assert(table[0].0 != c);
        assert(rest[k - 1] == table[k]);
        assert forall|j: int| 0 <= j < k - 1 implies (#[trigger] rest[j]).0 != c by {
            assert(rest[j] == table[j + 1]);
        }
        lemma_form_is_first(rest, k - 1, c);
    }
}

proof fn lemma_script_of_digits(table: Seq<(char, char)>, digits: Seq<char>)
    requires
        number::all_digits(digits),
        table == render::SUBSCRIPTS@ || table == render::SUPERSCRIPTS@,
    ensures
        render::script_text(table, digits) matches Some(t) && t.len() == digits.len() && forall|
            i: int,
        |
            0 <= i < digits.len() ==> Some(#[trigger] t[i]) == render::script_form(
                table,
                digits[i],
            ),
    decreases digits.len(),
{
    if digits.len() > 0 {
        let front = digits.drop_last();
        assert forall|i: int| 0 <= i < front.len() implies number::is_digit(#[trigger] front[i]) by {
            assert(number::is_digit(digits[i]));
        }
        lemma_script_of_digits(table, front);
        assert(number::is_digit(digits[digits.len() - 1]));
        law_script_digits(digits.last());
        let t = render::script_text(table, digits)->0;
        let u = render::script_text(table, front)->0;
        assert forall|i: int| 0 <= i < digits.len() implies Some(#[trigger] t[i])
            == render::script_form(table, digits[i]) by {
            if i < front.len() {
                assert(t[i] == u[i]);
                assert(front[i] == digits[i]);
            }
        }
    }
}

/// What stands before the first mark is copied.
pub proof fn lemma_scripts_up_to(s: Seq<char>, i: int, j: int, marker: char, table: Seq<(char, char)>)
    requires
        0 <= i <= j <= s.len(),
        forall|k: int| i <= k < j ==> #[trigger] s[k] != marker,
    ensures
        render::scripts_from(s, i, marker, table) == s.subrange(i, j) + render::scripts_from(
            s,
            j,
            marker,
            table,
        ),
    decreases j - i,
{
    if i < j {
        lemma_scripts_up_to(s, i + 1, j, marker, table);
        assert(s.subrange(i, j) =~= seq![s[i]] + s.subrange(i + 1, j));
        assert(render::scripts_from(s, i, marker, table) =~= s.subrange(i, j)
            + render::scripts_from(s, j, marker, table));
    } else {
        assert(s.subrange(i, j) + render::scripts_from(s, j, marker, table)
            =~= render::scripts_from(s, j, marker, table));
    }
}

/// A number behind a caret is raised and one behind an underscore lowered, digit for
/// digit, with or without braces around a single one; the marks are gone and the text
/// around stays.
pub proof fn law_numbers_are_raised_and_lowered(
    before: Seq<char>,
    digits: Seq<char>,
    after: Seq<char>,
)
    requires
        is_literal(before),
        is_literal(after),
        digits.len() > 0,
        number::all_digits(digits),
    ensures
        ({
            let up = render::unicode_of(before + "^{"@ + digits + "}"@ + after);
            let down = render::unicode_of(before + "_{"@ + digits + "}"@ + after);
            let n = before.len() as int;
            let m = digits.len() as int;
            &&& up.len() == n + m + after.len() && down.len() == up.len()
            &&& up.take(n) == before && down.take(n) == before
            &&& up.skip(n + m) == after && down.skip(n + m) == after
            &&& forall|i: int|
                0 <= i < m ==> Some(#[trigger] up[n + i]) == render::script_form(
                    render::SUPERSCRIPTS@,
                    digits[i],
                )
            &&& forall|i: int|
                0 <= i < m ==> Some(#[trigger] down[n + i]) == render::script_form(
                    render::SUBSCRIPTS@,
                    digits[i],
                )
            &&& m == 1 ==> render::unicode_of(before + "^"@ + digits + after) == up
            &&& m == 1 ==> render::unicode_of(before + "_"@ + digits + after) == down
        }),
{
    reveal_strlit("^{");
    reveal_strlit("_{");
    reveal_strlit("}");
    reveal_strlit("^");
    reveal_strlit("_");
    assert("^{"@ =~= seq!['^', '{']);
    assert("_{"@ =~= seq!['_', '{']);
    assert("}"@ =~= seq!['}']);
    assert("^"@ =~= seq!['^']);
    assert("_"@ =~= seq!['_']);
    lemma_raised(before, digits, after);
    lemma_lowered(before, digits, after);
    let n = before.len() as int;
    let m = digits.len() as int;
    lemma_script_of_digits(render::SUPERSCRIPTS@, digits);
    lemma_script_of_digits(render::SUBSCRIPTS@, digits);
    let t = render::script_text(render::SUPERSCRIPTS@, digits)->0;
    let u = render::script_text(render::SUBSCRIPTS@, digits)->0;
    let up = before + t + after;
    let down = before + u + after;
    assert(up.take(n) =~= before && down.take(n) =~= before);
    assert(up.skip(n + m) =~= after && down.skip(n + m) =~= after);
    assert forall|i: int| 0 <= i < m implies Some(#[trigger] up[n + i]) == render::script_form(
        render::SUPERSCRIPTS@,
        digits[i],
    ) by {
        assert(up[n + i] == t[i]);
    }
    assert forall|i: int| 0 <= i < m implies Some(#[trigger] down[n + i]) == render::script_form(
        render::SUBSCRIPTS@,
        digits[i],
    ) by {
        assert(down[n + i] == u[i]);
    }
}

/// The raised and lowered digits are no marks themselves.
proof fn lemma_scripts_are_literal(table: Seq<(char, char)>, digits: Seq<char>)
    requires
        number::all_digits(digits),
        table == render::SUBSCRIPTS@ || table == render::SUPERSCRIPTS@,
    ensures
        render::script_text(table, digits) matches Some(t) && is_literal(t),
{
    lemma_script_of_digits(table, digits);
    let t = render::script_text(table, digits)->0;
    assert forall|i: int| 0 <= i < t.len() implies {
        let c = #[trigger] t[i];
        c != '\\' && c != '^' && c != '_' && c != '{' && c != '}'
    } by {
        assert(number::is_digit(digits[i]));
        law_script_digits(digits[i]);
    }
}

/// Literal texts put together are literal.
pub proof fn lemma_join_literals(a: Seq<char>, b: Seq<char>, c: Seq<char>)
    requires
        is_literal(a),
        is_literal(b),
        is_literal(c),
    ensures
        is_literal(a + b + c),
{
    let s = a + b + c;
    assert forall|i: int| 0 <= i < s.len() implies {
        let x = #[trigger] s[i];
        x != '\\' && x != '^' && x != '_' && x != '{' && x != '}'
    } by {
        if i < a.len() {
            assert(s[i] == a[i]);
        } else if i < a.len() + b.len() {
            assert(s[i] == b[i - a.len()]);
        } else {
            assert(s[i] == c[i - a.len() - b.len()]);
        }
    }
}

/// One script with its marker, in braces or bare, among literal text.
proof fn lemma_one_script(
    before: Seq<char>,
    digits: Seq<char>,
    after: Seq<char>,
    marker: char,
    braces: bool,
    table: Seq<(char, char)>,
)
    requires
        is_literal(before),
        is_literal(after),
        digits.len() > 0,
        number::all_digits(digits),
        marker == '^' || marker == '_',
        !braces ==> digits.len() == 1,
        table == render::SUBSCRIPTS@ || table == render::SUPERSCRIPTS@,
    ensures
        ({
            let s = if braces {
                before + seq![marker, '{'] + digits + seq!['}'] + after
            } else {
                before + seq![marker] + digits + after
            };
            &&& !s.contains('\\')
            &&& render::scripts_from(s, 0, marker, table) == before + render::script_text(
                table,
                digits,
            )->0 + after
            &&& render::scripts_from(
                s,
                0,
                if marker == '^' {
                    '_'
                } else {
                    '^'
                },
                table,
            ) == s
        }),
{
    let s = if braces {
        before + seq![marker, '{'] + digits + seq!['}'] + after
    } else {
        before + seq![marker] + digits + after
    };
    let n = before.len() as int;
    let m = digits.len() as int;
    let next = if braces {
        n + 3 + m
    } else {
        n + 1 + m
    };
    let from = if braces {
        n + 2
    } else {
        n + 1
    };
    let other = if marker == '^' {
        '_'
    } else {
        '^'
    };
    assert forall|i: int| 0 <= i < m implies '0' <= #[trigger] digits[i] <= '9' by {
        assert(number::is_digit(digits[i]));
    }
    assert forall|i: int| 0 <= i < s.len() implies #[trigger] s[i] != '\\' && s[i] != other by {
        if i < n {
            assert(s[i] == before[i]);
        } else if from <= i < from + m {
            assert(s[i] == digits[i - from]);
        } else if i >= next {
            assert(s[i] == after[i - next]);
        }
    }
    assert forall|k: int| 0 <= k < n implies #[trigger] s[k] != marker by {
        assert(s[k] == before[k]);
    }
    assert forall|k: int| next <= k < s.len() implies #[trigger] s[k] != marker by {
        assert(s[k] == after[k - next]);
    }
    lemma_scripts_up_to(s, 0, n, marker, table);
    assert(s[n] == marker);
    if braces {
        assert(s[n + 1] == '{');
        assert forall|j: int| n + 2 <= j < n + 2 + m implies s[j] != '}' by {
            assert(s[j] == digits[j - n - 2]);
            assert('0' <= digits[j - n - 2] <= '9');
        }
        assert(s[n + 2 + m] == '}');
        text_laws::lemma_char_is_at(s, '}', n + 2, n + 2 + m);
        assert(s.subrange(n + 2, n + 2 + m) =~= digits);
    } else {
        assert(s[n + 1] == digits[0]);
        assert('0' <= digits[0] <= '9');
        assert(seq![s[n + 1]] =~= digits);
    }
    assert(render::script_argument(s, n) == (digits, next));
    lemma_script_of_digits(table, digits);
    lemma_scripts_up_to(s, next, s.len() as int, marker, table);
    assert(s.subrange(next, s.len() as int) =~= after);
    assert(s.subrange(0, n) =~= before);
    assert(render::scripts_from(s, s.len() as int, marker, table) =~= Seq::<char>::empty());
    assert(render::scripts_from(s, next, marker, table) =~= after);
    let t = render::script_text(table, digits)->0;
    assert(render::scripts_from(s, 0, marker, table) =~= before + t + after);
    lemma_scripts_leave(s, 0, other, table);
    assert(s.skip(0) =~= s);
}

proof fn lemma_raised(before: Seq<char>, digits: Seq<char>, after: Seq<char>)
    requires
        is_literal(before),
        is_literal(after),
        digits.len() > 0,
        number::all_digits(digits),
    ensures
        render::unicode_of(before + seq!['^', '{'] + digits + seq!['}'] + after) == before
            + render::script_text(render::SUPERSCRIPTS@, digits)->0 + after,
        digits.len() == 1 ==> render::unicode_of(before + seq!['^'] + digits + after) == before
            + render::script_text(render::SUPERSCRIPTS@, digits)->0 + after,
{
    lemma_scripts_are_literal(render::SUPERSCRIPTS@, digits);
    let t = render::script_text(render::SUPERSCRIPTS@, digits)->0;
    lemma_join_literals(before, t, after);
    let out = before + t + after;
    assert(!out.contains('_') && !out.contains('{') && !out.contains('}'));
    lemma_scripts_leave(out, 0, '_', render::SUBSCRIPTS@);
    assert(out.skip(0) =~= out);
    lemma_braces_leave(out);
    reveal_strlit("\\frac{");
    let s = before + seq!['^', '{'] + digits + seq!['}'] + after;
    lemma_one_script(before, digits, after, '^', true, render::SUPERSCRIPTS@);
    lemma_wrappers_leave(s, 6);
    lemma_no_backslash_no_command(s, "\\frac{"@);
    lemma_symbols_leave(s, 74);
    if digits.len() == 1 {
        let s1 = before + seq!['^'] + digits + after;
        lemma_one_script(before, digits, after, '^', false, render::SUPERSCRIPTS@);
        lemma_wrappers_leave(s1, 6);
        lemma_no_backslash_no_command(s1, "\\frac{"@);
        lemma_symbols_leave(s1, 74);
    }
}

proof fn lemma_lowered(before: Seq<char>, digits: Seq<char>, after: Seq<char>)
    requires
        is_literal(before),
        is_literal(after),
        digits.len() > 0,
        number::all_digits(digits),
    ensures
        render::unicode_of(before + seq!['_', '{'] + digits + seq!['}'] + after) == before
            + render::script_text(render::SUBSCRIPTS@, digits)->0 + after,
        digits.len() == 1 ==> render::unicode_of(before + seq!['_'] + digits + after) == before
            + render::script_text(render::SUBSCRIPTS@, digits)->0 + after,
{
    lemma_scripts_are_literal(render::SUBSCRIPTS@, digits);
    let t = render::script_text(render::SUBSCRIPTS@, digits)->0;
    lemma_join_literals(before, t, after);
    let out = before + t + after;
    assert(!out.contains('{') && !out.contains('}'));
    lemma_braces_leave(out);
    reveal_strlit("\\frac{");
    let s = before + seq!['_', '{'] + digits + seq!['}'] + after;
    lemma_one_script(before, digits, after, '_', true, render::SUBSCRIPTS@);
    lemma_other_marker(s, '^');
    lemma_wrappers_leave(s, 6);
    lemma_no_backslash_no_command(s, "\\frac{"@);
    lemma_symbols_leave(s, 74);
    if digits.len() == 1 {
        let s1 = before + seq!['_'] + digits + after;
        lemma_one_script(before, digits, after, '_', false, render::SUBSCRIPTS@);
        lemma_other_marker(s1, '^');
        lemma_wrappers_leave(s1, 6);
        lemma_no_backslash_no_command(s1, "\\frac{"@);
        lemma_symbols_leave(s1, 74);
    }
}

/// Where one table leaves a text alone for a marker, so does the other.
proof fn lemma_other_marker(s: Seq<char>, marker: char)
    requires
        render::scripts_from(s, 0, marker, render::SUBSCRIPTS@) == s,
        !s.contains(marker),
    ensures
        render::scripts_from(s, 0, marker, render::SUPERSCRIPTS@) == s,
{
    lemma_scripts_leave(s, 0, marker, render::SUPERSCRIPTS@);
    assert(s.skip(0) =~= s);
}

} // verus!

//! What holds of the answer renderer as a whole.
use crate::cli::render;
use crate::cli::render::StreamState;
use crate::number;
use crate::text;
use vstd::prelude::*;

verus! {

/// How an answer is cut into chunks does not matter: feeding two chunks in turn
/// shows, and leaves, what feeding their concatenation does.
pub proof fn law_chunks_do_not_matter(st: StreamState, a: Seq<char>, b: Seq<char>)
    ensures
        ({
            let (mid, shown_a) = render::fed_text(st, a);
            let (end, shown_b) = render::fed_text(mid, b);
            render::fed_text(st, a + b) == (end, shown_a + shown_b)
        }),
    decreases b.len(),
{
    let (mid, shown_a) = render::fed_text(st, a);
    if b.len() == 0 {
        assert(a + b == a);
        assert(shown_a + Seq::<char>::empty() == shown_a);
    } else {
        law_chunks_do_not_matter(st, a, b.drop_last());
        assert((a + b).drop_last() == a + b.drop_last());
        assert((a + b).last() == b.last());
        let (m2, shown_b) = render::fed_text(mid, b.drop_last());
        let (_, more) = render::fed(m2, b.last());
        assert((shown_a + shown_b) + more == shown_a + (shown_b + more));
    }
}

/// Ending an answer leaves nothing behind: the stream is as new.
pub proof fn law_finish_leaves_a_fresh_stream(st: StreamState)
    ensures
        render::finished(st).0 == render::fresh_stream(),
{
}

/// Inside a fenced code block every line but a fence is shown verbatim, behind a
/// dim bar, and changes nothing else.
pub proof fn law_code_is_verbatim(st: StreamState, newline: bool)
    requires
        st.in_code_block,
        !st.in_math_block,
        !"```"@.is_prefix_of(text::trimmed_start(st.line)),
    ensures
        render::flushed(st, newline) == (
            render::next_line(st),
            crate::cli::style::DIM@ + "│"@ + crate::cli::style::RESET@ + " "@ + st.line + "\n"@,
        ),
{
}

/// What has been shown of a line never runs ahead of the line.
pub open spec fn in_bounds(st: StreamState) -> bool {
    0 <= st.emitted <= st.line.len()
}

/// Taking a character keeps what has been shown of the line within the line.
pub proof fn law_shown_part_stays_in_line(st: StreamState, ch: char)
    requires
        in_bounds(st),
    ensures
        in_bounds(render::fed(st, ch).0),
{
    let next = StreamState { line: st.line.push(ch), ..st };
    lemma_prefix_in_line(next.line);
    lemma_boundary_in_line(next.line, next.emitted);
    lemma_boundary_in_line(next.line, render::prefix_of(next.line).1);
}

proof fn lemma_prefix_in_line(line: Seq<char>)
    ensures
        0 <= render::prefix_of(line).1 <= line.len(),
{
    reveal_strlit("- ");
    reveal_strlit("* ");
    reveal_strlit("+ ");
    reveal_strlit(". ");
    text::lemma_leading_spaces(line);
    text::lemma_occurrence_from(text::trimmed_start(line), ". "@, 0);
}

proof fn lemma_boundary_in_line(s: Seq<char>, i: int)
    requires
        0 <= i,
    ensures
        render::boundary_from(s, i) <= s.len(),
        i <= s.len() ==> i <= render::boundary_from(s, i),
    decreases s.len() - i,
{
    if i < s.len() {
        render::lemma_piece_end(s, i);
        if let Some(k) = render::piece_end(s, i) {
            lemma_boundary_in_line(s, k);
        }
    }
}

/// A command is held while one of its brace groups is open: nothing of it is shown.
pub proof fn law_open_command_is_held(s: Seq<char>, i: int)
    requires
        0 <= i < s.len(),
        s[i] == '\\',
        !text::occurs_at(s, "\\("@, i),
        ({
            let j = render::name_end(s, i + 1);
            i + 1 < j < s.len() && s[j] == '{' && !render::groups_closed(s.skip(j), 0, 0, false)
        }),
    ensures
        render::boundary_from(s, i) == i,
{
    let j = render::name_end(s, i + 1);
    render::lemma_name_and_run(s, i + 1, 0);
    if render::run_end(s, j, 0) is Some {
        render::lemma_ended_run_is_closed(s, j, 0, 0, false);
    }
}

/// From `i` on every brace is closed by one of its own, with `depth` of them open
/// before.
pub open spec fn balanced_from(s: Seq<char>, i: int, depth: int) -> bool
    decreases s.len() - i,
{
    if i < 0 || i >= s.len() {
        depth == 0
    } else if s[i] == '{' {
        balanced_from(s, i + 1, depth + 1)
    } else if s[i] == '}' {
        depth > 0 && balanced_from(s, i + 1, depth - 1)
    } else {
        balanced_from(s, i + 1, depth)
    }
}

/// What may stand above or below the line of a fraction: text on one line whose
/// braces are balanced.
pub open spec fn is_group_text(s: Seq<char>) -> bool {
    balanced_from(s, 0, 0) && !s.contains('\n') && !s.contains('\r')
}

/// The fraction of `a` and `b`, as LaTeX.
pub open spec fn fraction(a: Seq<char>, b: Seq<char>) -> Seq<char> {
    "\\frac{"@ + a + "}{"@ + b + "}"@
}

/// A fraction that streams in is shown as the fraction on a line of its own is:
/// held while it grows, and shown whole once a space, the end of its line or the
/// end of the answer follows.
pub proof fn law_streamed_fraction_is_whole(a: Seq<char>, b: Seq<char>)
    requires
        is_group_text(a),
        is_group_text(b),
    ensures
        ({
            let f = fraction(a, b);
            let held = render::fed_text(render::fresh_stream(), f).0;
            &&& render::fed_text(render::fresh_stream(), f).1 == Seq::<char>::empty()
            &&& render::fed_text(render::fresh_stream(), f.push(' ')).1 == render::line_of(
                f.push(' '),
            )
            &&& render::fed_text(render::fresh_stream(), f.push('\n')) == (
                render::fresh_stream(),
                render::line_of(f) + "\n"@,
            )
            &&& render::finished(held).1 == render::line_of(f)
        }),
{
    let f = fraction(a, b);
    let n = f.len() as int;
    lemma_fraction_parts(a, b);
    lemma_fraction_run(a, b, Seq::empty());
    assert(f + Seq::<char>::empty() == f);
    assert(f.take(n) == f);
    lemma_fraction_so_far(a, b, n);
    lemma_fraction_line(f);
    assert(f.skip(0) == f);
    assert(Seq::<char>::empty() + (render::line_of(f) + "\n"@) == render::line_of(f) + "\n"@);
    assert(render::line_of(f) + Seq::<char>::empty() == render::line_of(f));
    assert(f.push('\n').drop_last() == f);
    let (st, _) = render::fed_text(render::fresh_stream(), f);
    assert(!render::undecided(f)) by {
        lemma_encoding_is_no_shorter(f);
    }
    let g = f.push(' ');
    assert(g.drop_last() == f);
    let next = StreamState { line: g, ..st };
    assert(g == f + seq![' ']);
    lemma_fraction_run(a, b, seq![' ']);
    lemma_fraction_line(g);
    lemma_fraction_name(g);
    assert(render::run_end(g, 5, 0) == Some(n));
    assert(g[n] == ' ');
    assert(render::command_end(g, n) == Some(n));
    assert(!text::occurs_at(g, "\\("@, 0)) by {
        reveal_strlit("\\(");
        if text::occurs_at(g, "\\("@, 0) {
            assert(g.subrange(0, 2)[1] == g[1]);
        }
    }
    assert(render::piece_end(g, 0) == Some(n));
    assert(render::boundary_from(g, n + 1) == n + 1);
    assert(render::boundary_from(g, n) == n + 1);
    assert(render::boundary_from(g, 0) == n + 1);
    assert(g.subrange(0, n + 1) == g);
    assert(Seq::<char>::empty() + render::inline_of(g) == render::inline_of(g));
}

/// A text takes at least a byte for each character.
pub proof fn lemma_encoding_is_no_shorter(s: Seq<char>)
    ensures
        s.len() <= vstd::utf8::encode_utf8(s).len(),
    decreases s.len(),
{
    if s.len() > 0 {
        lemma_encoding_is_no_shorter(s.drop_first());
    }
}

proof fn lemma_fraction_parts(a: Seq<char>, b: Seq<char>)
    requires
        is_group_text(a),
        is_group_text(b),
    ensures
        ({
            let f = fraction(a, b);
            let m = a.len() as int;
            let n = b.len() as int;
            &&& f.len() == a.len() + b.len() + 9
            &&& f[0] == '\\' && f[1] == 'f' && f[2] == 'r' && f[3] == 'a' && f[4] == 'c' && f[5]
                == '{'
            &&& f[6 + m] == '}' && f[7 + m] == '{' && f[8 + m + n] == '}'
            &&& forall|k: int| 0 <= k < a.len() ==> f[6 + k] == #[trigger] a[k]
            &&& forall|k: int| 0 <= k < b.len() ==> f[8 + m + k] == #[trigger] b[k]
            &&& forall|k: int| 0 <= k < f.len() ==> #[trigger] f[k] != '\n' && f[k] != '\r'
        }),
{
    reveal_strlit("\\frac{");
    reveal_strlit("}{");
    reveal_strlit("}");
    let f = fraction(a, b);
    assert forall|k: int| 0 <= k < f.len() implies #[trigger] f[k] != '\n' && f[k] != '\r' by {
        if 6 <= k < 6 + a.len() {
            assert(a.contains(a[k - 6]));
        } else if 8 + a.len() <= k < 8 + a.len() + b.len() {
            assert(b.contains(b[k - 8 - a.len()]));
        }
    }
}

/// A balanced stretch of a run of groups leaves its depth as it was.
proof fn lemma_balanced_stretch(s: Seq<char>, from: int, part: Seq<char>, i: int, depth: int)
    requires
        0 <= from,
        from + part.len() <= s.len(),
        forall|k: int| 0 <= k < part.len() ==> s[from + k] == #[trigger] part[k],
        0 <= i <= part.len(),
        0 <= depth,
        balanced_from(part, i, depth),
    ensures
        render::run_end(s, from + i, depth + 1) == render::run_end(s, from + part.len(), 1),
    decreases part.len() - i,
{
    if i < part.len() {
        assert(s[from + i] == part[i]);
        let d: int = if part[i] == '{' {
            depth + 1
        } else if part[i] == '}' {
            depth - 1
        } else {
            depth
        };
        lemma_balanced_stretch(s, from, part, i + 1, d);
    }
}

/// The groups of a fraction end where the fraction does, once other text follows.
proof fn lemma_fraction_run(a: Seq<char>, b: Seq<char>, rest: Seq<char>)
    requires
        is_group_text(a),
        is_group_text(b),
        rest.len() > 0 ==> rest[0] != '{',
    ensures
        render::run_end(fraction(a, b) + rest, 5, 0) == if rest.len() == 0 {
            None
        } else {
            Some(fraction(a, b).len() as int)
        },
{
    let f = fraction(a, b);
    let s = f + rest;
    let m = a.len() as int;
    let n = b.len() as int;
    lemma_fraction_parts(a, b);
    assert forall|k: int| 0 <= k < f.len() implies s[k] == #[trigger] f[k] by {}
    assert forall|k: int| 0 <= k < a.len() implies s[6 + k] == #[trigger] a[k] by {
        assert(f[6 + k] == a[k]);
    }
    assert forall|k: int| 0 <= k < b.len() implies s[8 + m + k] == #[trigger] b[k] by {
        assert(f[8 + m + k] == b[k]);
    }
    lemma_balanced_stretch(s, 6, a, 0, 0);
    lemma_balanced_stretch(s, 8 + m, b, 0, 0);
    assert(s[5] == '{' && s[6 + m] == '}' && s[7 + m] == '{');
    assert(s[8 + m + n] == '}');
    assert(render::run_end(s, 5, 0) == render::run_end(s, 6, 1));
    assert(render::run_end(s, 6 + m, 1) == render::run_end(s, 7 + m, 0));
    assert(render::run_end(s, 7 + m, 0) == render::run_end(s, 8 + m, 1));
    assert(render::run_end(s, 8 + m + n, 1) == render::run_end(s, f.len() as int, 0));
    if rest.len() > 0 {
        assert(s[f.len() as int] == rest[0]);
    }
}

/// The name at the start of a fraction.
proof fn lemma_fraction_name(s: Seq<char>)
    requires
        s.len() > 5,
        s[1] == 'f' && s[2] == 'r' && s[3] == 'a' && s[4] == 'c' && s[5] == '{',
    ensures
        render::name_end(s, 1) == 5,
{
    reveal_with_fuel(render::name_end, 6);
}

/// A run of groups that ends in part of a text ends there in the whole.
proof fn lemma_run_in_part(s: Seq<char>, n: int, i: int, depth: int)
    requires
        0 <= n <= s.len(),
        0 <= i,
    ensures
        render::run_end(s.take(n), i, depth) matches Some(e) ==> render::run_end(s, i, depth)
            == Some(e),
    decreases n - i,
{
    if i < n {
        assert(s.take(n)[i] == s[i]);
        lemma_run_in_part(s, n, i + 1, depth);
        lemma_run_in_part(s, n, i + 1, depth + 1);
        lemma_run_in_part(s, n, i + 1, depth - 1);
    }
}

/// What a line that starts as a fraction does is no block and no list item.
proof fn lemma_fraction_line(s: Seq<char>)
    requires
        s.len() > 0,
        s[0] == '\\',
        s.len() > 1 ==> s[1] == 'f',
    ensures
        text::trimmed_start(s) == s,
        !render::whole_line(s),
        !"\\["@.is_prefix_of(s) && !"```"@.is_prefix_of(s),
        s != "\\["@ && s != "$$"@,
        render::prefix_of(s) == (Seq::<char>::empty(), 0int),
        render::line_of(s) == render::inline_of(s),
{
    reveal_strlit("#");
    reveal_strlit("> ");
    reveal_strlit("```");
    reveal_strlit("\\[");
    reveal_strlit("$$");
    reveal_strlit("- ");
    reveal_strlit("* ");
    reveal_strlit("+ ");
    reveal_strlit("#### ");
    reveal_strlit("### ");
    reveal_strlit("## ");
    reveal_strlit("# ");
    reveal_strlit("---");
    reveal_strlit("***");
    reveal_strlit("___");
    reveal_strlit(". ");
    text::lemma_leading_spaces_unique(s, 0);
    assert(s.skip(0) == s);
    lemma_prefix_head("#"@, s);
    lemma_prefix_head("> "@, s);
    lemma_prefix_head("```"@, s);
    lemma_prefix_head("$$"@, s);
    lemma_prefix_head("- "@, s);
    lemma_prefix_head("* "@, s);
    lemma_prefix_head("+ "@, s);
    lemma_prefix_head("#### "@, s);
    lemma_prefix_head("### "@, s);
    lemma_prefix_head("## "@, s);
    lemma_prefix_head("# "@, s);
    if "\\["@.is_prefix_of(s) {
        assert("\\["@[1] == s.subrange(0, 2)[1]);
    }
    text::lemma_occurrence_from(s, ". "@, 0);
    assert(render::numbered(s) is None) by {
        if let Some(dot) = text::occurrence_from(s, ". "@, 0) {
            if dot > 0 && number::all_digits(s.take(dot)) {
                assert(number::is_digit(s.take(dot)[0]));
            }
        }
    }
}

/// While a fraction grows, nothing of it is shown.
proof fn lemma_fraction_so_far(a: Seq<char>, b: Seq<char>, n: int)
    requires
        is_group_text(a),
        is_group_text(b),
        0 <= n <= fraction(a, b).len(),
    ensures
        ({
            let p = fraction(a, b).take(n);
            let (st, shown) = render::fed_text(render::fresh_stream(), p);
            &&& st == (StreamState {
                line: p,
                line_started: st.line_started,
                ..render::fresh_stream()
            })
            &&& shown == Seq::<char>::empty()
        }),
    decreases n,
{
    let f = fraction(a, b);
    let p = f.take(n);
    if n > 0 {
        lemma_fraction_parts(a, b);
        lemma_fraction_so_far(a, b, n - 1);
        let c = p.last();
        assert(p.drop_last() == f.take(n - 1));
        assert(c == f[n - 1]);
        let (st, _) = render::fed_text(render::fresh_stream(), f.take(n - 1));
        assert(st.line.push(c) == p);
        lemma_fraction_line(p);
        lemma_fraction_is_held(a, b, n);
        assert(render::boundary_from(p, 0) == 0);
        assert(Seq::<char>::empty() + Seq::<char>::empty() == Seq::<char>::empty());
    } else {
        assert(p == Seq::<char>::empty());
    }
}

proof fn lemma_fraction_is_held(a: Seq<char>, b: Seq<char>, n: int)
    requires
        is_group_text(a),
        is_group_text(b),
        0 < n <= fraction(a, b).len(),
    ensures
        render::piece_end(fraction(a, b).take(n), 0) is None,
{
    let f = fraction(a, b);
    let p = f.take(n);
    lemma_fraction_parts(a, b);
    assert(!text::occurs_at(p, "\\("@, 0)) by {
        reveal_strlit("\\(");
        if text::occurs_at(p, "\\("@, 0) {
            assert(p.subrange(0, 2)[1] == f[1]);
        }
    }
    if n > 5 {
        lemma_fraction_name(p);
        lemma_run_in_part(f, n, 5, 0);
        lemma_fraction_run(a, b, Seq::empty());
        assert(f + Seq::<char>::empty() == f);
    } else {
        reveal_with_fuel(render::name_end, 6);
        reveal_with_fuel(render::command_end, 6);
    }
}

/// Of two rows the later one's name never begins with the earlier one's, so that
/// replacing the rows in turn never cuts a name short.
#[verifier::rlimit(100)]
#[verifier::spinoff_prover]
pub proof fn law_longer_names_come_first(i: int, j: int)
    requires
        0 <= i < j < 74,
    ensures
        !render::SYMBOLS@[i].0@.is_prefix_of(render::SYMBOLS@[j].0@),
{
    reveal_strlit("\\alpha");
    reveal_strlit("\\beta");
    reveal_strlit("\\gamma");
    reveal_strlit("\\delta");
    reveal_strlit("\\epsilon");
    reveal_strlit("\\varepsilon");
    reveal_strlit("\\zeta");
    reveal_strlit("\\eta");
    reveal_strlit("\\theta");
    reveal_strlit("\\iota");
    reveal_strlit("\\kappa");
    reveal_strlit("\\lambda");
    reveal_strlit("\\mu");
    reveal_strlit("\\nu");
    reveal_strlit("\\xi");
    reveal_strlit("\\pi");
    reveal_strlit("\\rho");
    reveal_strlit("\\sigma");
    reveal_strlit("\\tau");
    reveal_strlit("\\phi");
    reveal_strlit("\\varphi");
    reveal_strlit("\\chi");
    reveal_strlit("\\psi");
    reveal_strlit("\\omega");
    reveal_strlit("\\Gamma");
    reveal_strlit("\\Delta");
    reveal_strlit("\\Theta");
    reveal_strlit("\\Lambda");
    reveal_strlit("\\Pi");
    reveal_strlit("\\Sigma");
    reveal_strlit("\\Phi");
    reveal_strlit("\\Psi");
    reveal_strlit("\\Omega");
    reveal_strlit("\\times");
    reveal_strlit("\\cdots");
    reveal_strlit("\\cdot");
    reveal_strlit("\\div");
    reveal_strlit("\\pm");
    reveal_strlit("\\leq");
    reveal_strlit("\\geq");
    reveal_strlit("\\neq");
    reveal_strlit("\\approx");
    reveal_strlit("\\equiv");
    reveal_strlit("\\propto");
    reveal_strlit("\\infty");
    reveal_strlit("\\rightarrow");
    reveal_strlit("\\to");
    reveal_strlit("\\leftarrow");
    reveal_strlit("\\Rightarrow");
    reveal_strlit("\\Leftarrow");
    reveal_strlit("\\leftrightarrow");
    reveal_strlit("\\sum");
    reveal_strlit("\\prod");
    reveal_strlit("\\int");
    reveal_strlit("\\partial");
    reveal_strlit("\\nabla");
    reveal_strlit("\\sqrt");
    reveal_strlit("\\forall");
    reveal_strlit("\\exists");
    reveal_strlit("\\in");
    reveal_strlit("\\notin");
    reveal_strlit("\\subset");
    reveal_strlit("\\cup");
    reveal_strlit("\\cap");
    reveal_strlit("\\emptyset");
    reveal_strlit("\\angle");
    reveal_strlit("\\degree");
    reveal_strlit("\\ldots");
    reveal_strlit("\\left");
    reveal_strlit("\\right");
    reveal_strlit("\\,");
    reveal_strlit("\\;");
    reveal_strlit("\\!");
    reveal_strlit("\\quad");
    let a = render::SYMBOLS@[i].0@;
    let b = render::SYMBOLS@[j].0@;
    if a.is_prefix_of(b) {
        assert forall|k: int| 0 <= k < a.len() implies a[k] == #[trigger] b[k] by {
            assert(b.subrange(0, a.len() as int)[k] == b[k]);
        }
        assert(a[1] == b[1]);
        assert(a.len() > 2 ==> a[2] == b[2]);
        assert(a.len() > 3 ==> a[3] == b[3]);
        assert(a.len() > 4 ==> a[4] == b[4]);
        assert(a.len() > 5 ==> a[5] == b[5]);
    }
}

/// No brace is left in translated math.
pub proof fn law_unicode_has_no_braces(s: Seq<char>)
    ensures
        !render::unicode_of(s).contains('{'),
        !render::unicode_of(s).contains('}'),
{
    let plain = render::fractions_replaced(render::wrappers_stripped(s, 6));
    let symbols = render::symbols_replaced(plain, 74);
    let raised = render::scripts_from(symbols, 0, '^', render::SUPERSCRIPTS@);
    let lowered = render::scripts_from(raised, 0, '_', render::SUBSCRIPTS@);
    let set = seq!['{', '}'];
    assert(set[0] == '{' && set[1] == '}');
    text::lemma_replaced_chars_free(lowered, set, Seq::empty(), '{');
    text::lemma_replaced_chars_free(lowered, set, Seq::empty(), '}');
}

/// A text that holds none of the characters with a meaning in Markdown or LaTeX.
pub open spec fn is_plain(s: Seq<char>) -> bool {
    forall|i: int|
        0 <= i < s.len() ==> {
            let c = #[trigger] s[i];
            c != '`' && c != '*' && c != '_' && c != '$' && c != '\\'
        }
}

/// Plain text is shown as it is.
pub proof fn law_plain_text_is_unchanged(s: Seq<char>)
    requires
        is_plain(s),
    ensures
        render::latex_of(s) == s,
        render::inline_of(s) == s,
{
    text::lemma_char_from(s, '$', 0);
    reveal_strlit("\\(");
    text::lemma_occurrence_from(s, "\\("@, 0);
    if let Some(k) = text::occurrence_from(s, "\\("@, 0) {
        assert(s.subrange(k, k + 2)[0] == '\\');
        assert(s[k] == '\\');
    }
    assert(render::math_opening(s) is None);
    assert(!s.contains('\\'));
    lemma_plain_spans(s, 0);
    assert(s.skip(0) == s);
}

/// A text that is plain but for underscores inside words.
pub open spec fn is_plain_but_for_words(s: Seq<char>) -> bool {
    forall|i: int|
        0 <= i < s.len() ==> {
            let c = #[trigger] s[i];
            c != '`' && c != '*' && c != '$' && c != '\\' && (c == '_' ==> render::is_mid_word(
                s,
                i,
            ))
        }
}

/// Underscores inside words, as in `a_b`, begin and end no italics: text with no
/// other markup is shown as it is.
pub proof fn law_underscores_in_words_stay(s: Seq<char>)
    requires
        is_plain_but_for_words(s),
    ensures
        render::inline_of(s) == s,
{
    text::lemma_char_from(s, '$', 0);
    reveal_strlit("\\(");
    text::lemma_occurrence_from(s, "\\("@, 0);
    if let Some(k) = text::occurrence_from(s, "\\("@, 0) {
        assert(s.subrange(k, k + 2)[0] == '\\');
        assert(s[k] == '\\');
    }
    assert(render::math_opening(s) is None);
    assert(!s.contains('\\'));
    lemma_word_spans(s, 0);
    assert(s.skip(0) == s);
}

proof fn lemma_word_spans(s: Seq<char>, i: int)
    requires
        is_plain_but_for_words(s),
        0 <= i <= s.len(),
    ensures
        render::spans_from(s, i) == s.skip(i),
    decreases s.len() - i,
{
    if i < s.len() {
        assert(render::span_at(s, i) is None);
        lemma_word_spans(s, i + 1);
        assert(s.skip(i) == seq![s[i]] + s.skip(i + 1));
    } else {
        assert(s.skip(i) == Seq::<char>::empty());
    }
}

proof fn lemma_plain_spans(s: Seq<char>, i: int)
    requires
        is_plain(s),
        0 <= i <= s.len(),
    ensures
        render::spans_from(s, i) == s.skip(i),
    decreases s.len() - i,
{
    if i < s.len() {
        assert(s[i] != '`' && s[i] != '*' && s[i] != '_');
        lemma_plain_spans(s, i + 1);
        assert(s.skip(i) == seq![s[i]] + s.skip(i + 1));
    } else {
        assert(s.skip(i) == Seq::<char>::empty());
    }
}

/// A text with no command in it is left alone outside math.
pub proof fn law_no_command_no_conversion(s: Seq<char>)
    requires
        !s.contains('\\'),
    ensures
        render::bare_of(s) == s,
{
}

/// The length read off a leading byte is the length of the UTF-8 sequence that
/// starts there.
pub proof fn law_utf8_char_len(s: Seq<char>)
    requires
        s.len() > 0,
    ensures
        ({
            let b = vstd::utf8::encode_utf8(s)[0];
            vstd::utf8::length_of_first_scalar(vstd::utf8::encode_utf8(s))
                == render::lead_byte_width(b)
        }),
{
    vstd::utf8::encode_utf8_first_scalar(s);
}

/// A line of plain prose: no markup in it, and nothing at its start that could
/// begin a heading, a quote or a list item.
pub open spec fn is_prose(line: Seq<char>) -> bool {
    let t = text::trimmed_start(line);
    &&& is_plain(line)
    &&& !line.contains('\n')
    &&& !line.contains('\r')
    &&& t.len() > 0 ==> t[0] != '#' && t[0] != '>' && t[0] != '-' && t[0] != '+' && !('0' <= t[0]
        <= '9')
}

/// Prose streams through unchanged: a whole line of it, fed to a fresh stream,
/// is shown as it is.
pub proof fn law_prose_streams_unchanged(line: Seq<char>)
    requires
        is_prose(line),
    ensures
        render::fed_text(render::fresh_stream(), line.push('\n')) == (
            render::fresh_stream(),
            line + "\n"@,
        ),
{
    lemma_prose_so_far(line);
    let (st, shown) = render::fed_text(render::fresh_stream(), line);
    assert(line.push('\n').drop_last() == line);
    let t = text::trimmed_start(line);
    lemma_prose_start(line);
    reveal_strlit("\n");
    if st.line_started {
        assert(line.skip(line.len() as int) == Seq::<char>::empty());
        law_plain_text_is_unchanged(Seq::empty());
        assert(render::flushed(st, true).1 == "\n"@);
    } else {
        law_plain_text_is_unchanged(line);
        assert(render::line_of(line) == line);
        assert(Seq::<char>::empty() + (line + "\n"@) == line + "\n"@);
    }
}

/// Prose that streams in is shown as far as it has come, or still held at its start.
pub proof fn lemma_prose_so_far(line: Seq<char>)
    requires
        is_prose(line),
    ensures
        ({
            let (st, shown) = render::fed_text(render::fresh_stream(), line);
            &&& st.line == line
            &&& !st.in_code_block && !st.in_math_block && st.math == Seq::<char>::empty()
            &&& if st.line_started {
                st.emitted == line.len() && shown == line
            } else {
                st.emitted == 0 && shown == Seq::<char>::empty()
            }
        }),
    decreases line.len(),
{
    if line.len() > 0 {
        let l = line.drop_last();
        let c = line.last();
        lemma_prose_prefix(line);
        lemma_prose_so_far(l);
        lemma_prose_start(line);
        let (st, shown) = render::fed_text(render::fresh_stream(), l);
        assert(line.contains(c));
        assert(c != '\n' && c != '\r');
        let next = StreamState { line: st.line.push(c), ..st };
        assert(st.line.push(c) == line);
        assert(render::fed(st, c) == render::partial(next));
        lemma_prose_step(next);
        assert(l + seq![c] == line);
        assert(Seq::<char>::empty() + line == line);
        assert(Seq::<char>::empty() + Seq::<char>::empty() == Seq::<char>::empty());
    }
}

/// One more character of prose.
pub proof fn lemma_prose_step(next: StreamState)
    requires
        is_prose(next.line),
        next.line.len() > 0,
        !next.in_code_block,
        !next.in_math_block,
        next.emitted == if next.line_started {
            next.line.len() - 1
        } else {
            0
        },
    ensures
        ({
            let (after, more) = render::partial(next);
            &&& after.line == next.line
            &&& !after.in_code_block && !after.in_math_block && after.math == next.math
            &&& next.line_started ==> after.line_started && after.emitted == next.line.len()
                && more == seq![next.line.last()]
            &&& !next.line_started && after.line_started ==> after.emitted == next.line.len()
                && more == next.line
            &&& !next.line_started && !after.line_started ==> after.emitted == 0 && more == Seq::<
                char,
            >::empty()
        }),
{
    let line = next.line;
    let n = line.len() as int;
    let c = line.last();
    assert(line.contains(c));
    lemma_prose_start(line);
    lemma_plain_boundary(line, 0);
    lemma_plain_boundary(line, n - 1);
    if next.line_started {
        assert(line.subrange(n - 1, n) == seq![c]);
        assert(is_plain(seq![c]));
        law_plain_text_is_unchanged(seq![c]);
    } else {
        assert(line.subrange(0, n) == line);
        law_plain_text_is_unchanged(line);
        assert(Seq::<char>::empty() + line == line);
    }
}

/// Prose has no mark at its start.
pub proof fn lemma_prose_prefix(line: Seq<char>)
    requires
        is_prose(line),
        line.len() > 0,
    ensures
        is_prose(line.drop_last()),
{
    let l = line.drop_last();
    text::lemma_leading_spaces(line);
    text::lemma_leading_spaces(l);
    let n = text::leading_spaces(line);
    assert forall|i: int| 0 <= i < l.len() implies l[i] == line[i] by {}
    if n < l.len() {
        text::lemma_leading_spaces_unique(l, n);
        assert(text::trimmed_start(l)[0] == text::trimmed_start(line)[0]);
    } else {
        text::lemma_leading_spaces_unique(l, l.len() as int);
    }
    assert forall|i: int| 0 <= i < l.len() implies l[i] != '\n' && l[i] != '\r' by {
        assert(line.contains(line[i]));
    }
}

/// The start of prose is no mark of a block.
pub proof fn lemma_prose_start(line: Seq<char>)
    requires
        is_prose(line),
    ensures
        ({
            let t = text::trimmed_start(line);
            &&& !render::whole_line(t)
            &&& !"\\["@.is_prefix_of(t) && !"```"@.is_prefix_of(t)
            &&& t != "\\["@ && t != "$$"@
            &&& render::prefix_of(line) == (Seq::<char>::empty(), 0int)
            &&& render::line_of(line) == render::inline_of(line)
        }),
{
    let t = text::trimmed_start(line);
    reveal_strlit("#");
    reveal_strlit("> ");
    reveal_strlit("```");
    reveal_strlit("\\[");
    reveal_strlit("$$");
    reveal_strlit("- ");
    reveal_strlit("* ");
    reveal_strlit("+ ");
    reveal_strlit("#### ");
    reveal_strlit("### ");
    reveal_strlit("## ");
    reveal_strlit("# ");
    reveal_strlit("---");
    reveal_strlit("***");
    reveal_strlit("___");
    reveal_strlit(". ");
    text::lemma_leading_spaces(line);
    if t.len() > 0 {
        assert(t[0] == line[text::leading_spaces(line)]);
    }
    lemma_prefix_head("#"@, t);
    lemma_prefix_head("> "@, t);
    lemma_prefix_head("```"@, t);
    lemma_prefix_head("\\["@, t);
    lemma_prefix_head("$$"@, t);
    lemma_prefix_head("- "@, t);
    lemma_prefix_head("* "@, t);
    lemma_prefix_head("+ "@, t);
    lemma_prefix_head("#### "@, t);
    lemma_prefix_head("### "@, t);
    lemma_prefix_head("## "@, t);
    lemma_prefix_head("# "@, t);
    text::lemma_occurrence_from(t, ". "@, 0);
    assert(render::numbered(t) is None) by {
        if let Some(dot) = text::occurrence_from(t, ". "@, 0) {
            if dot > 0 && number::all_digits(t.take(dot)) {
                assert(number::is_digit(t.take(dot)[0]));
            }
        }
    }
}

proof fn lemma_prefix_head(p: Seq<char>, t: Seq<char>)
    requires
        p.len() > 0,
    ensures
        p.is_prefix_of(t) ==> t.len() > 0 && t[0] == p[0],
{
    if p.is_prefix_of(t) {
        assert(p[0] == t.subrange(0, p.len() as int)[0]);
    }
}

proof fn lemma_plain_boundary(s: Seq<char>, i: int)
    requires
        is_plain(s),
        0 <= i <= s.len(),
    ensures
        render::boundary_from(s, i) == s.len(),
    decreases s.len() - i,
{
    if i < s.len() {
        lemma_plain_boundary(s, i + 1);
    }
}

} // verus!

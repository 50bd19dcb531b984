//! What holds of blocks and spans as they stream in: code, display math, emphasis.
use crate::cli::inline_laws;
use crate::cli::markdown_laws;
use crate::cli::render;
use crate::cli::render::StreamState;
use crate::cli::render_laws;
use crate::cli::style::{BOLD, CYAN, DIM, ITALIC, RESET, YELLOW};
use crate::text;
use crate::text_laws;
use vstd::prelude::*;

verus! {

// --------------------------------------------------------------------- code blocks

/// A stream in a code block, at the start of a line.
pub open spec fn in_code() -> StreamState {
    StreamState { in_code_block: true, ..render::fresh_stream() }
}

/// A stream in a block of display math, at the start of a line, with what has been
/// gathered of it.
pub open spec fn in_math(math: Seq<char>) -> StreamState {
    StreamState { in_math_block: true, math, ..render::fresh_stream() }
}

proof fn lemma_block_line_so_far(st: StreamState, line: Seq<char>)
    requires
        st.in_code_block || st.in_math_block,
        st.line.len() == 0,
        markdown_laws::on_one_line(line),
    ensures
        render::fed_text(st, line) == (StreamState { line, ..st }, Seq::<char>::empty()),
    decreases line.len(),
{
    if line.len() > 0 {
        let front = line.drop_last();
        assert forall|i: int| 0 <= i < front.len() implies front[i] != '\n' && front[i] != '\r' by {
            assert(line.contains(line[i]));
        }
        lemma_block_line_so_far(st, front);
        assert(line.contains(line.last()));
        assert(front.push(line.last()) =~= line);
        assert(Seq::<char>::empty() + Seq::<char>::empty() =~= Seq::<char>::empty());
    } else {
        assert(line =~= Seq::<char>::empty());
        assert(st.line =~= line);
    }
}

/// Code is shown verbatim: each line of a code block that is no fence is shown behind a
/// dim bar, character by character as it came, and the block goes on.
pub proof fn law_code_lines_stream_verbatim(line: Seq<char>)
    requires
        markdown_laws::on_one_line(line),
        !"```"@.is_prefix_of(text::trimmed_start(line)),
    ensures
        render::fed_text(in_code(), line.push('\n')) == (
            in_code(),
            DIM@ + "│"@ + RESET@ + " "@ + line + "\n"@,
        ),
{
    lemma_block_line_so_far(in_code(), line);
    assert(line.push('\n').drop_last() =~= line);
    let shown = DIM@ + "│"@ + RESET@ + " "@ + line + "\n"@;
    assert(Seq::<char>::empty() + shown =~= shown);
    assert(render::next_line(StreamState { line, ..in_code() }) == in_code());
}

/// A fence ends a code block, and what follows is text again.
pub proof fn law_fence_ends_the_code()
    ensures
        render::fed_text(in_code(), "```\n"@) == (
            render::fresh_stream(),
            DIM@ + "┄┄┄┄┄┄"@ + RESET@ + "\n"@,
        ),
{
    markdown_laws::lemma_reveal_marks();
    reveal_strlit("```\n");
    let fence = "```"@;
    lemma_block_line_so_far(in_code(), fence);
    assert("```\n"@.drop_last() =~= fence);
    text::lemma_leading_spaces_unique(fence, 0);
    assert(text::trimmed_start(fence) =~= fence);
    let shown = DIM@ + "┄┄┄┄┄┄"@ + RESET@ + "\n"@;
    assert(Seq::<char>::empty() + shown =~= shown);
    assert(fence.subrange(0, 3) =~= fence);
}

/// A fence at the start of a line begins a code block and names its language.
pub proof fn law_fence_begins_the_code(lang: Seq<char>)
    requires
        markdown_laws::on_one_line(lang),
        !lang.contains('`'),
        lang.len() > 0,
    ensures
        render::fed_text(render::fresh_stream(), ("```"@ + lang).push('\n')) == (
            in_code(),
            YELLOW@ + RESET@ + DIM@ + "┄┄ "@ + lang + " ┄┄"@ + RESET@ + "\n"@,
        ),
{
    let line = "```"@ + lang;
    lemma_fence_so_far(lang, lang.len() as int);
    assert(lang.take(lang.len() as int) =~= lang);
    assert(line.push('\n').drop_last() =~= line);
    let st = StreamState {
        line,
        line_started: true,
        emitted: 2,
        ..render::fresh_stream()
    };
    lemma_fence_flushes(lang);
    let bar = DIM@ + "┄┄ "@ + lang + " ┄┄"@ + RESET@ + "\n"@;
    assert(render::fed(st, '\n') == (in_code(), bar));
    assert((YELLOW@ + RESET@) + bar =~= YELLOW@ + RESET@ + DIM@ + "┄┄ "@ + lang + " ┄┄"@ + RESET@
        + "\n"@);
}

proof fn lemma_fence_language(lang: Seq<char>)
    requires
        lang.len() > 0,
        lang[0] != '`',
    ensures
        render::fence_language("```"@ + lang) == lang,
{
    markdown_laws::lemma_reveal_marks();
    let line = "```"@ + lang;
    assert(line[0] == '`');
    let one = line.skip(1);
    assert(one[0] == '`');
    let two = one.skip(1);
    assert(two[0] == '`');
    assert(two.skip(1) =~= lang);
    assert(render::fence_language(lang) == lang);
    assert(render::fence_language(two) == lang);
    assert(render::fence_language(one) == lang);
}

proof fn lemma_fence_flushes(lang: Seq<char>)
    requires
        lang.len() > 0,
        !lang.contains('`'),
    ensures
        render::flushed(
            StreamState {
                line: "```"@ + lang,
                line_started: true,
                emitted: 2,
                ..render::fresh_stream()
            },
            true,
        ) == (in_code(), DIM@ + "┄┄ "@ + lang + " ┄┄"@ + RESET@ + "\n"@),
{
    markdown_laws::lemma_reveal_marks();
    let line = "```"@ + lang;
    assert(lang.contains(lang[0]));
    lemma_fence_language(lang);
    assert(line[0] == '`');
    text::lemma_leading_spaces_unique(line, 0);
    assert(text::trimmed_start(line) =~= line);
    assert(line.subrange(0, 3) =~= "```"@);
    markdown_laws::lemma_no_prefix("\\["@, line, 0);
    markdown_laws::lemma_no_prefix("$$"@, line, 0);
}

/// A fence that is coming in is held behind its first two backticks, which show nothing
/// but a style that is reset at once.
proof fn lemma_fence_so_far(lang: Seq<char>, k: int)
    requires
        markdown_laws::on_one_line(lang),
        !lang.contains('`'),
        0 <= k <= lang.len(),
    ensures
        render::fed_text(render::fresh_stream(), "```"@ + lang.take(k)) == (
            StreamState {
                line: "```"@ + lang.take(k),
                line_started: true,
                emitted: 2,
                ..render::fresh_stream()
            },
            YELLOW@ + RESET@,
        ),
    decreases k,
{
    markdown_laws::lemma_reveal_marks();
    let s = "```"@ + lang.take(k);
    let none = Seq::<char>::empty();
    if k > 0 {
        lemma_fence_so_far(lang, k - 1);
        let before = "```"@ + lang.take(k - 1);
        assert(s.drop_last() =~= before);
        assert(s.last() == lang[k - 1]);
        assert(lang.contains(lang[k - 1]));
        assert(before.push(lang[k - 1]) =~= s);
        lemma_third_backtick_is_held(lang, k);
        assert(YELLOW@ + RESET@ + none =~= YELLOW@ + RESET@);
    } else {
        assert(s =~= "```"@);
        let one = seq!['`'];
        let two = seq!['`', '`'];
        let fresh = render::fresh_stream();
        assert(one.drop_last() =~= none);
        assert(render::fed_text(fresh, none) == (fresh, none));
        markdown_laws::lemma_short_ascii(one);
        text::lemma_leading_spaces_unique(one, 0);
        assert(text::trimmed_start(one) =~= one);
        assert(none.push('`') =~= one);
        assert(!one.contains(' '));
        markdown_laws::lemma_no_prefix("``"@, one, 1);
        assert(render::undecided(one));
        assert(none + none =~= none);
        let held = StreamState { line: one, ..fresh };
        assert(render::fed(fresh, '`') == (held, none));
        assert(render::fed_text(fresh, one) == (held, none));
        assert(two.drop_last() =~= one);
        assert(one.push('`') =~= two);
        text::lemma_leading_spaces_unique(two, 0);
        assert(text::trimmed_start(two) =~= two);
        assert(two.subrange(0, 2) =~= "``"@);
        lemma_two_backticks();
        let started = StreamState { line: two, line_started: true, emitted: 2, ..fresh };
        assert(render::partial(StreamState { line: two, ..fresh }) == (started, YELLOW@ + RESET@));
        assert(none + (YELLOW@ + RESET@) =~= YELLOW@ + RESET@);
        assert(render::fed_text(fresh, two) == (started, YELLOW@ + RESET@));
        assert("```"@.drop_last() =~= two);
        assert(two.push('`') =~= "```"@);
        assert(lang.take(0) =~= none);
        lemma_third_backtick_is_held(lang, 0);
        assert(YELLOW@ + RESET@ + none =~= YELLOW@ + RESET@);
    }
}

proof fn lemma_third_backtick_is_held(lang: Seq<char>, k: int)
    requires
        0 <= k <= lang.len(),
        !lang.contains('`'),
    ensures
        render::boundary_from("```"@ + lang.take(k), 2) == 2,
{
    markdown_laws::lemma_reveal_marks();
    let s = "```"@ + lang.take(k);
    render::lemma_closing_from(s, '`', 3);
    if let Some(j) = render::closing_from(s, '`', 3) {
        assert(s[j] == lang[j - 3]);
        assert(lang.contains(lang[j - 3]));
    }
    assert(s[2] == '`');
}

proof fn lemma_two_backticks()
    ensures
        ({
            let two = seq!['`', '`'];
            &&& !render::whole_line(two)
            &&& render::prefix_of(two) == (Seq::<char>::empty(), 0int)
            &&& render::boundary_from(two, 0) == 2
            &&& render::inline_of(two) == YELLOW@ + RESET@
            &&& Seq::<char>::empty() + render::inline_of(two.subrange(0, 2)) == YELLOW@ + RESET@
        }),
{
    markdown_laws::lemma_reveal_marks();
    let two = seq!['`', '`'];
    let none = Seq::<char>::empty();
    markdown_laws::lemma_no_prefix("#"@, two, 0);
    markdown_laws::lemma_no_prefix("> "@, two, 0);
    markdown_laws::lemma_no_prefix("```"@, two, 2);
    markdown_laws::lemma_no_prefix("\\["@, two, 0);
    markdown_laws::lemma_no_prefix("$$"@, two, 0);
    markdown_laws::lemma_no_prefix("- "@, two, 0);
    markdown_laws::lemma_no_prefix("* "@, two, 0);
    markdown_laws::lemma_no_prefix("+ "@, two, 0);
    text::lemma_leading_spaces_unique(two, 0);
    assert(text::trimmed_start(two) =~= two);
    reveal_strlit(". ");
    text::lemma_occurrence_from(two, ". "@, 0);
    if let Some(j) = text::occurrence_from(two, ". "@, 0) {
        assert(two.subrange(j, j + 2)[0] == two[j]);
    }
    assert(render::closing_from(two, '`', 1) == Some(1int));
    assert(render::boundary_from(two, 2) == 2);
    reveal_strlit("`");
    inline_laws::law_code_is_shown_as_it_is(none, none, none);
    assert(none + ("`"@ + none + "`"@) + none =~= two);
    assert(none + (YELLOW@ + none + RESET@) + none =~= YELLOW@ + RESET@);
    assert(two.subrange(0, 2) =~= two);
    assert(none + (YELLOW@ + RESET@) =~= YELLOW@ + RESET@);
}

// -------------------------------------------------------------------- display math

/// Display math on lines of its own is gathered to the end of its block, whatever marks
/// it is written with, and shown once, translated and without its delimiters.
pub proof fn law_display_math_is_shown_at_its_end(math: Seq<char>)
    requires
        markdown_laws::on_one_line(math),
        text::trimmed_start(math) != "\\]"@,
        text::trimmed_start(math) != "$$"@,
    ensures
        render::fed_text(
            render::fresh_stream(),
            "\\[\n"@ + math.push('\n') + "\\]\n"@,
        ) == (
            render::fresh_stream(),
            "    "@ + CYAN@ + render::unicode_of(text::trimmed(math.push(' '))) + RESET@ + "\n"@,
        ),
        render::fed_text(
            render::fresh_stream(),
            "$$\n"@ + math.push('\n') + "$$\n"@,
        ).1 == "    "@ + CYAN@ + render::unicode_of(text::trimmed(math.push(' '))) + RESET@ + "\n"@,
{
    reveal_strlit("\\]");
    reveal_strlit("$$");
    reveal_strlit("\\[\n");
    reveal_strlit("$$\n");
    reveal_strlit("\\]\n");
    reveal_strlit("\\[");
    assert("\\["@.push('\n') =~= "\\[\n"@);
    assert("$$"@.push('\n') =~= "$$\n"@);
    assert("\\]"@.push('\n') =~= "\\]\n"@);
    lemma_math_block("\\["@, math, "\\]"@);
    lemma_math_block("$$"@, math, "$$"@);
}

proof fn lemma_math_block(open: Seq<char>, math: Seq<char>, close: Seq<char>)
    requires
        markdown_laws::on_one_line(math),
        text::trimmed_start(math) != "\\]"@,
        text::trimmed_start(math) != "$$"@,
        open == "\\["@ || open == "$$"@,
        close == "\\]"@ || close == "$$"@,
    ensures
        render::fed_text(
            render::fresh_stream(),
            open.push('\n') + math.push('\n') + close.push('\n'),
        ) == (
            render::fresh_stream(),
            "    "@ + CYAN@ + render::unicode_of(text::trimmed(math.push(' '))) + RESET@ + "\n"@,
        ),
{
    markdown_laws::lemma_reveal_marks();
    reveal_strlit("\\]");
    let none = Seq::<char>::empty();
    let fresh = render::fresh_stream();
    lemma_delimiter(open);
    lemma_delimiter(close);
    assert forall|k: int| 0 < k <= open.len() implies markdown_laws::is_held(
        #[trigger] open.take(k),
    ) by {
        let p = open.take(k);
        text::lemma_leading_spaces_unique(p, 0);
        assert(text::trimmed_start(p) =~= p);
        if k == 1 {
            markdown_laws::lemma_short_ascii(p);
            markdown_laws::lemma_no_prefix("``"@, p, 0);
            assert(!p.contains(' '));
        } else {
            assert(p =~= open);
            assert(open.subrange(0, 2) =~= open);
        }
    }
    markdown_laws::lemma_held_so_far(open, open.len() as int);
    assert(open.take(open.len() as int) =~= open);
    assert(open.push('\n').drop_last() =~= open);
    assert(none + none =~= none);
    assert(render::fed_text(fresh, open.push('\n')) == (in_math(none), none));
    lemma_block_line_so_far(in_math(none), math);
    assert(math.push('\n').drop_last() =~= math);
    let got = math.push(' ');
    assert((none + math).push(' ') =~= got);
    assert(render::fed_text(in_math(none), math.push('\n')) == (in_math(got), none));
    lemma_block_line_so_far(in_math(got), close);
    assert(close.push('\n').drop_last() =~= close);
    let shown = render::display_math(got);
    assert(none + shown =~= shown);
    assert(render::fed_text(in_math(got), close.push('\n')) == (fresh, shown));
    render_laws::law_chunks_do_not_matter(fresh, open.push('\n'), math.push('\n'));
    render_laws::law_chunks_do_not_matter(
        fresh,
        open.push('\n') + math.push('\n'),
        close.push('\n'),
    );
}

proof fn lemma_delimiter(d: Seq<char>)
    requires
        d == "\\["@ || d == "$$"@ || d == "\\]"@,
    ensures
        markdown_laws::on_one_line(d),
        text::trimmed_start(d) == d,
        d.len() == 2,
        !text::is_space(d[0]) && (d[0] as u32) < 0x80 && d[0] != ' ' && d[0] != '`',
{
    markdown_laws::lemma_reveal_marks();
    reveal_strlit("\\]");
    assert(d.len() == 2);
    assert forall|i: int| 0 <= i < d.len() implies d[i] != '\n' && d[i] != '\r' by {
        assert(i == 0 || i == 1);
    }
    text::lemma_leading_spaces_unique(d, 0);
    assert(text::trimmed_start(d) =~= d);
}

// ---------------------------------------------------------------- spans in a stream

/// Prose that is on its way: enough of it has come to tell that it is prose.
pub open spec fn is_started_prose(s: Seq<char>) -> bool {
    render_laws::is_prose(s) && text::trimmed_start(s).len() >= 4
}

proof fn lemma_started_prose(before: Seq<char>)
    requires
        is_started_prose(before),
    ensures
        render::fed_text(render::fresh_stream(), before) == (
            StreamState {
                line: before,
                line_started: true,
                emitted: before.len() as int,
                ..render::fresh_stream()
            },
            before,
        ),
{
    render_laws::lemma_prose_so_far(before);
    let (st, shown) = render::fed_text(render::fresh_stream(), before);
    text::lemma_leading_spaces(before);
    assert(before.len() > 0);
    render_laws::lemma_prose_prefix(before);
    let front = before.drop_last();
    render_laws::lemma_prose_so_far(front);
    let (mid, _) = render::fed_text(render::fresh_stream(), front);
    let c = before.last();
    assert(before.contains(c));
    assert(front.push(c) =~= before);
    let next = StreamState { line: mid.line.push(c), ..mid };
    render_laws::lemma_prose_start(before);
    render_laws::lemma_encoding_is_no_shorter(text::trimmed_start(before));
    assert(render::partial(next).0.line_started);
}

/// A span that is held until it is whole, between prose and plain text.
proof fn lemma_streamed_span(before: Seq<char>, raw: Seq<char>, after: Seq<char>)
    requires
        is_started_prose(before),
        raw.len() > 0,
        markdown_laws::on_one_line(raw),
        markdown_laws::on_one_line(after),
        render_laws::is_plain(after),
        forall|i: int|
            0 < i < raw.len() ==> render::boundary_from(
                before + #[trigger] raw.take(i),
                before.len() as int,
            ) == before.len(),
        render::boundary_from(before + raw, before.len() as int) == before.len() + raw.len(),
    ensures
        render::fed_text(render::fresh_stream(), (before + raw + after).push('\n')) == (
            render::fresh_stream(),
            before + render::inline_of(raw) + after + "\n"@,
        ),
{
    markdown_laws::lemma_reveal_marks();
    let none = Seq::<char>::empty();
    let n = before.len() as int;
    lemma_span_so_far(before, raw, raw.len() - 1);
    let almost = raw.take(raw.len() - 1);
    let c = raw.last();
    let head = before + raw;
    assert((before + almost).push(c) =~= head);
    assert(head.drop_last() =~= before + almost);
    assert(head.last() == c);
    assert(raw.contains(c));
    assert(head.subrange(n, head.len() as int) =~= raw);
    let shown = before + render::inline_of(raw);
    assert(render::fed_text(render::fresh_stream(), head) == (
        StreamState {
            line: head,
            line_started: true,
            emitted: head.len() as int,
            ..render::fresh_stream()
        },
        shown,
    ));
    markdown_laws::lemma_item_so_far(head, shown, after, after.len() as int);
    assert(after.take(after.len() as int) =~= after);
    let line = head + after;
    assert(line =~= before + raw + after);
    assert(line.push('\n').drop_last() =~= line);
    assert(line.skip(line.len() as int) =~= none);
    render_laws::law_plain_text_is_unchanged(none);
    assert(none + "\n"@ =~= "\n"@);
    lemma_prose_head(before, raw + after);
    assert(before + (raw + after) =~= line);
    let end = StreamState {
        line,
        line_started: true,
        emitted: line.len() as int,
        ..render::fresh_stream()
    };
    assert(render::flushed(end, true) == (render::fresh_stream(), "\n"@));
}

proof fn lemma_span_so_far(before: Seq<char>, raw: Seq<char>, k: int)
    requires
        is_started_prose(before),
        0 <= k < raw.len(),
        markdown_laws::on_one_line(raw),
        forall|i: int|
            0 < i < raw.len() ==> render::boundary_from(
                before + #[trigger] raw.take(i),
                before.len() as int,
            ) == before.len(),
    ensures
        render::fed_text(render::fresh_stream(), before + raw.take(k)) == (
            StreamState {
                line: before + raw.take(k),
                line_started: true,
                emitted: before.len() as int,
                ..render::fresh_stream()
            },
            before,
        ),
    decreases k,
{
    let s = before + raw.take(k);
    if k == 0 {
        lemma_started_prose(before);
        assert(s =~= before);
    } else {
        lemma_span_so_far(before, raw, k - 1);
        let front = before + raw.take(k - 1);
        assert(s.drop_last() =~= front);
        assert(s.last() == raw[k - 1]);
        assert(raw.contains(raw[k - 1]));
        assert(front.push(raw[k - 1]) =~= s);
        assert(render::boundary_from(before + raw.take(k), before.len() as int) == before.len());
        assert(before + Seq::<char>::empty() =~= before);
    }
}

/// A line that begins with prose is no block.
proof fn lemma_prose_head(before: Seq<char>, more: Seq<char>)
    requires
        is_started_prose(before),
    ensures
        ({
            let t = text::trimmed_start(before + more);
            &&& !"\\["@.is_prefix_of(t) && !"```"@.is_prefix_of(t)
            &&& t != "\\["@ && t != "$$"@
        }),
{
    markdown_laws::lemma_reveal_marks();
    let s = before + more;
    text::lemma_leading_spaces(before);
    let n = text::leading_spaces(before);
    assert forall|i: int| 0 <= i < n implies text::is_space(s[i]) by {
        assert(s[i] == before[i]);
    }
    assert(s[n] == before[n]);
    text::lemma_leading_spaces_unique(s, n);
    let t = text::trimmed_start(s);
    assert(t[0] == before[n]);
    markdown_laws::lemma_no_prefix("\\["@, t, 0);
    markdown_laws::lemma_no_prefix("```"@, t, 0);
    markdown_laws::lemma_no_prefix("$$"@, t, 0);
}

/// Bold text in a sentence that streams in is held until it is closed, then shown bold;
/// the sentence around it is shown as it is.
pub proof fn law_streamed_bold_is_shown_bold(
    before: Seq<char>,
    inner: Seq<char>,
    after: Seq<char>,
)
    requires
        is_started_prose(before),
        inline_laws::has_no_math(inner),
        !inner.contains('*'),
        inner.len() > 0,
        markdown_laws::on_one_line(inner),
        render_laws::is_plain(after),
        markdown_laws::on_one_line(after),
    ensures
        render::fed_text(
            render::fresh_stream(),
            (before + ("**"@ + inner + "**"@) + after).push('\n'),
        ) == (render::fresh_stream(), before + (BOLD@ + inner + RESET@) + after + "\n"@),
{
    reveal_strlit("**");
    let raw = "**"@ + inner + "**"@;
    let n = before.len() as int;
    let m = inner.len() as int;
    let none = Seq::<char>::empty();
    assert forall|k: int| 0 <= k < m implies #[trigger] inner[k] != '*' && inner[k] != '\\'
        && inner[k] != '\n' && inner[k] != '\r' by {
        assert(inner.contains(inner[k]));
    }
    assert forall|i: int| 0 <= i < raw.len() implies raw[i] != '\n' && raw[i] != '\r' by {
        if 2 <= i < 2 + m {
            assert(raw[i] == inner[i - 2]);
        }
    }
    assert forall|i: int| 0 < i < raw.len() implies render::boundary_from(
        before + #[trigger] raw.take(i),
        n,
    ) == n by {
        let s = before + raw.take(i);
        assert(s[n] == '*');
        if i == 1 {
            render::lemma_closing_from(s, '*', n + 1);
            if text::occurs_at(s, "**"@, n) {
                assert(n + 2 <= s.len());
            }
        } else {
            assert(s.subrange(n, n + 2) =~= "**"@);
            text::lemma_occurrence_from(s, "**"@, n + 2);
            if let Some(k) = text::occurrence_from(s, "**"@, n + 2) {
                assert(s.subrange(k, k + 2)[0] == s[k]);
                assert(s.subrange(k, k + 2)[1] == s[k + 1]);
                assert(k - n < raw.len() - 2);
                assert(s[k] == raw[k - n]);
                assert(raw[k - n] == inner[k - n - 2]);
            }
        }
    }
    let whole = before + raw;
    assert(whole[n] == '*');
    assert(whole.subrange(n, n + 2) =~= "**"@);
    assert(whole.subrange(n + 2 + m, n + 4 + m) =~= "**"@);
    assert forall|j: int| n + 2 <= j < n + 2 + m implies !text::occurs_at(whole, "**"@, j) by {
        if text::occurs_at(whole, "**"@, j) {
            assert(whole.subrange(j, j + 2)[0] == whole[j]);
            assert(whole[j] == inner[j - n - 2]);
        }
    }
    text_laws::lemma_text_is_at(whole, "**"@, n + 2, n + 2 + m);
    assert(render::piece_end(whole, n) == Some(n + 4 + m));
    assert(render::boundary_from(whole, n + 4 + m) == whole.len());
    lemma_streamed_span(before, raw, after);
    inline_laws::law_emphasis_is_styled(none, inner, none);
    assert(none + raw + none =~= raw);
    assert(none + (BOLD@ + inner + RESET@) + none =~= BOLD@ + inner + RESET@);
}

/// Code in a sentence that streams in is held until it is closed, then shown as code.
pub proof fn law_streamed_code_is_shown_as_code(
    before: Seq<char>,
    code: Seq<char>,
    after: Seq<char>,
)
    requires
        is_started_prose(before),
        inline_laws::has_no_math(code),
        !code.contains('`'),
        markdown_laws::on_one_line(code),
        render_laws::is_plain(after),
        markdown_laws::on_one_line(after),
    ensures
        render::fed_text(
            render::fresh_stream(),
            (before + ("`"@ + code + "`"@) + after).push('\n'),
        ) == (render::fresh_stream(), before + (YELLOW@ + code + RESET@) + after + "\n"@),
{
    reveal_strlit("`");
    let raw = "`"@ + code + "`"@;
    let n = before.len() as int;
    let m = code.len() as int;
    let none = Seq::<char>::empty();
    assert forall|k: int| 0 <= k < m implies #[trigger] code[k] != '`' && code[k] != '\\' && code[k]
        != '\n' && code[k] != '\r' by {
        assert(code.contains(code[k]));
    }
    assert forall|i: int| 0 <= i < raw.len() implies raw[i] != '\n' && raw[i] != '\r' by {
        if 1 <= i < 1 + m {
            assert(raw[i] == code[i - 1]);
        }
    }
    assert forall|i: int| 0 < i < raw.len() implies render::boundary_from(
        before + #[trigger] raw.take(i),
        n,
    ) == n by {
        let s = before + raw.take(i);
        assert(s[n] == '`');
        render::lemma_closing_from(s, '`', n + 1);
        if let Some(k) = render::closing_from(s, '`', n + 1) {
            assert(s[k] == raw[k - n]);
            assert(raw[k - n] == code[k - n - 1]);
        }
    }
    let whole = before + raw;
    assert(whole[n] == '`');
    assert forall|k: int| n + 1 <= k < n + 1 + m implies #[trigger] whole[k] != '`' && whole[k]
        != '\\' by {
        assert(whole[k] == code[k - n - 1]);
    }
    inline_laws::lemma_closing_is_at(whole, '`', n + 1, n + 1 + m);
    assert(render::piece_end(whole, n) == Some(n + 2 + m));
    assert(render::boundary_from(whole, n + 2 + m) == whole.len());
    lemma_streamed_span(before, raw, after);
    inline_laws::law_code_is_shown_as_it_is(none, code, none);
    assert(none + raw + none =~= raw);
    assert(none + (YELLOW@ + code + RESET@) + none =~= YELLOW@ + code + RESET@);
}

/// Text in italics in a sentence that streams in is held until it is closed, then shown
/// in italics.
pub proof fn law_streamed_italics_are_shown(
    before: Seq<char>,
    inner: Seq<char>,
    after: Seq<char>,
)
    requires
        is_started_prose(before),
        inline_laws::has_no_math(inner),
        !inner.contains('*'),
        inner.len() > 0,
        markdown_laws::on_one_line(inner),
        render_laws::is_plain(after),
        markdown_laws::on_one_line(after),
    ensures
        render::fed_text(
            render::fresh_stream(),
            (before + ("*"@ + inner + "*"@) + after).push('\n'),
        ) == (render::fresh_stream(), before + (ITALIC@ + inner + RESET@) + after + "\n"@),
{
    reveal_strlit("*");
    reveal_strlit("**");
    let raw = "*"@ + inner + "*"@;
    let n = before.len() as int;
    let m = inner.len() as int;
    let none = Seq::<char>::empty();
    assert forall|k: int| 0 <= k < m implies #[trigger] inner[k] != '*' && inner[k] != '\\'
        && inner[k] != '\n' && inner[k] != '\r' by {
        assert(inner.contains(inner[k]));
    }
    assert forall|i: int| 0 <= i < raw.len() implies raw[i] != '\n' && raw[i] != '\r' by {
        if 1 <= i < 1 + m {
            assert(raw[i] == inner[i - 1]);
        }
    }
    assert forall|i: int| 0 < i < raw.len() implies render::boundary_from(
        before + #[trigger] raw.take(i),
        n,
    ) == n by {
        let s = before + raw.take(i);
        assert(s[n] == '*');
        if text::occurs_at(s, "**"@, n) {
            assert(s.subrange(n, n + 2)[1] == s[n + 1]);
            assert(s[n + 1] == inner[0]);
        }
        render::lemma_closing_from(s, '*', n + 1);
        if let Some(k) = render::closing_from(s, '*', n + 1) {
            assert(s[k] == raw[k - n]);
            assert(raw[k - n] == inner[k - n - 1]);
        }
    }
    let whole = before + raw;
    assert(whole[n] == '*');
    if text::occurs_at(whole, "**"@, n) {
        assert(whole.subrange(n, n + 2)[1] == whole[n + 1]);
        assert(whole[n + 1] == inner[0]);
    }
    assert forall|k: int| n + 1 <= k < n + 1 + m implies #[trigger] whole[k] != '*' && whole[k]
        != '\\' by {
        assert(whole[k] == inner[k - n - 1]);
    }
    inline_laws::lemma_closing_is_at(whole, '*', n + 1, n + 1 + m);
    assert(render::piece_end(whole, n) == Some(n + 2 + m));
    assert(render::boundary_from(whole, n + 2 + m) == whole.len());
    lemma_streamed_span(before, raw, after);
    inline_laws::law_emphasis_is_styled(none, inner, none);
    assert(none + raw + none =~= raw);
    assert(none + (ITALIC@ + inner + RESET@) + none =~= ITALIC@ + inner + RESET@);
}

/// Math in a sentence that streams in is held until it is closed, then shown as the
/// whole piece of math is.
pub proof fn law_streamed_math_is_shown_whole(
    before: Seq<char>,
    math: Seq<char>,
    after: Seq<char>,
)
    requires
        is_started_prose(before),
        math.len() > 0,
        !math.contains('$'),
        markdown_laws::on_one_line(math),
        render_laws::is_plain(after),
        markdown_laws::on_one_line(after),
    ensures
        render::fed_text(
            render::fresh_stream(),
            (before + ("$"@ + math + "$"@) + after).push('\n'),
        ) == (
            render::fresh_stream(),
            before + render::inline_of("$"@ + math + "$"@) + after + "\n"@,
        ),
{
    reveal_strlit("$");
    reveal_strlit("$$");
    let raw = "$"@ + math + "$"@;
    let n = before.len() as int;
    let m = math.len() as int;
    assert forall|k: int| 0 <= k < m implies #[trigger] math[k] != '$' && math[k] != '\n' && math[k]
        != '\r' by {
        assert(math.contains(math[k]));
    }
    assert forall|i: int| 0 <= i < raw.len() implies raw[i] != '\n' && raw[i] != '\r' by {
        if 1 <= i < 1 + m {
            assert(raw[i] == math[i - 1]);
        }
    }
    assert forall|i: int| 0 < i < raw.len() implies render::boundary_from(
        before + #[trigger] raw.take(i),
        n,
    ) == n by {
        let s = before + raw.take(i);
        assert(s[n] == '$');
        if text::occurs_at(s, "$$"@, n) {
            assert(s.subrange(n, n + 2)[1] == s[n + 1]);
            assert(s[n + 1] == math[0]);
        }
        text::lemma_char_from(s, '$', n + 1);
        if let Some(k) = text::char_from(s, '$', n + 1) {
            assert(s[k] == raw[k - n]);
            assert(raw[k - n] == math[k - n - 1]);
        }
    }
    let whole = before + raw;
    assert(whole[n] == '$');
    if text::occurs_at(whole, "$$"@, n) {
        assert(whole.subrange(n, n + 2)[1] == whole[n + 1]);
        assert(whole[n + 1] == math[0]);
    }
    assert forall|j: int| n + 1 <= j < n + 1 + m implies whole[j] != '$' by {
        assert(whole[j] == math[j - n - 1]);
    }
    text_laws::lemma_char_is_at(whole, '$', n + 1, n + 1 + m);
    assert(render::piece_end(whole, n) == Some(n + 2 + m));
    assert(render::boundary_from(whole, n + 2 + m) == whole.len());
    lemma_streamed_span(before, raw, after);
}

/// What is still held when an answer ends is shown as if its line had ended, but for the
/// line end: nothing of an answer is lost.
pub proof fn law_the_last_line_is_shown(line: Seq<char>)
    requires
        render_laws::is_prose(line),
    ensures
        ({
            let (st, shown) = render::fed_text(render::fresh_stream(), line);
            shown + render::finished(st).1 == line
        }),
{
    render_laws::lemma_prose_so_far(line);
    render_laws::lemma_prose_start(line);
    let (st, shown) = render::fed_text(render::fresh_stream(), line);
    let none = Seq::<char>::empty();
    assert(line.skip(line.len() as int) =~= none);
    render_laws::law_plain_text_is_unchanged(none);
    render_laws::law_plain_text_is_unchanged(line);
    assert(line + (none + none) =~= line);
    assert(none + (line + none) =~= line);
}

// --------------------------------------------------------------------------- lines

/// Lines of display math are gathered in order, with a space behind each, and nothing is
/// shown of them before their block ends.
pub proof fn law_lines_of_math_are_gathered(math: Seq<char>, line: Seq<char>)
    requires
        markdown_laws::on_one_line(line),
        text::trimmed_start(line) != "\\]"@,
        text::trimmed_start(line) != "$$"@,
    ensures
        render::fed_text(in_math(math), line.push('\n')) == (
            in_math((math + line).push(' ')),
            Seq::<char>::empty(),
        ),
{
    let none = Seq::<char>::empty();
    lemma_block_line_so_far(in_math(math), line);
    assert(line.push('\n').drop_last() =~= line);
    assert(none + none =~= none);
}

/// Display math that the answer ends in is shown, though nothing closes it.
pub proof fn law_unclosed_math_is_shown(math: Seq<char>)
    requires
        text::trimmed(math.push(' ')).len() > 0,
    ensures
        render::finished(in_math(math)).1 == "    "@ + CYAN@ + render::unicode_of(
            text::trimmed(math.push(' ')),
        ) + RESET@ + "\n"@,
        render::finished(in_math(math)).0 == render::fresh_stream(),
{
    let none = Seq::<char>::empty();
    reveal_strlit("\\]");
    reveal_strlit("$$");
    text::lemma_leading_spaces(none);
    assert(text::trimmed_start(none) =~= none);
    assert((math + none).push(' ') =~= math.push(' '));
    let shown = render::display_math(math.push(' '));
    assert(none + shown =~= shown);
}

/// A carriage return is passed over wherever it stands.
pub proof fn law_carriage_returns_are_passed_over(st: StreamState, a: Seq<char>, b: Seq<char>)
    ensures
        render::fed_text(st, a.push('\r') + b) == render::fed_text(st, a + b),
{
    let none = Seq::<char>::empty();
    render_laws::law_chunks_do_not_matter(st, a, b);
    render_laws::law_chunks_do_not_matter(st, a.push('\r'), b);
    assert(a.push('\r').drop_last() =~= a);
    let shown = render::fed_text(st, a).1;
    assert(shown + none =~= shown);
}

/// Prose is shown as it comes: once enough of a line is there to tell that it is prose,
/// all of it is on the screen, before the line ends.
pub proof fn law_prose_is_shown_as_it_comes(line: Seq<char>)
    requires
        is_started_prose(line),
    ensures
        render::fed_text(render::fresh_stream(), line).1 == line,
{
    lemma_started_prose(line);
}

} // verus!

use localllm::cli::render::{
    brace_groups_closed, find_closing, latex_to_unicode, render_latex, render_line,
    safe_inline_boundary, utf8_char_len, MarkdownStream,
};
use localllm::cli::style::{BOLD, CYAN, DIM, GREEN, ITALIC, RESET, YELLOW};

fn strip_ansi(s: &str) -> String {
    let mut out = String::new();
    let mut in_esc = false;
    for c in s.chars() {
        if in_esc {
            if c == 'm' {
                in_esc = false;
            }
        } else if c == '\x1b' {
            in_esc = true;
        } else {
            out.push(c);
        }
    }
    out
}

fn chars(s: &str) -> Vec<char> {
    s.chars().collect()
}

#[test]
fn superscript_and_subscript() {
    assert_eq!(latex_to_unicode("x^2"), "x²");
    assert_eq!(latex_to_unicode("x^{10}"), "x¹⁰");
    assert_eq!(latex_to_unicode("H_2O"), "H₂O");
}

#[test]
fn greek_and_operators() {
    assert_eq!(latex_to_unicode("\\alpha + \\beta"), "α + β");
    assert_eq!(latex_to_unicode("a \\times b"), "a × b");
    assert_eq!(latex_to_unicode("x \\leq y"), "x ≤ y");
}

#[test]
fn fraction() {
    assert_eq!(latex_to_unicode("\\frac{a}{b}"), "(a)/(b)");
    assert_eq!(latex_to_unicode("\\frac{1}{2}"), "(1)/(2)");
}

#[test]
fn boxed_and_text_wrappers_unwrap() {
    assert_eq!(latex_to_unicode("\\boxed{a^2 + b^2 = c^2}"), "a² + b² = c²");
    assert_eq!(latex_to_unicode("5 \\text{ m}"), "5  m");
}

#[test]
fn frac_with_commands_inside() {
    assert_eq!(
        latex_to_unicode("\\frac{\\partial u}{\\partial x}"),
        "(∂ u)/(∂ x)"
    );
}

#[test]
fn inline_math_delimiters_stripped() {
    let r = strip_ansi(&render_latex("area is $r^2$ units"));
    assert_eq!(r, "area is r² units");
}

#[test]
fn bold_and_code_spans() {
    let r = strip_ansi(&render_line("This is **bold** and `code`"));
    assert_eq!(r, "This is bold and code");
}

#[test]
fn heading_renders_text() {
    let r = strip_ansi(&render_line("## Section"));
    assert!(r.contains("Section"));
}

#[test]
fn bullet_becomes_dot() {
    let r = strip_ansi(&render_line("- item"));
    assert!(r.contains("item"));
    assert!(r.contains('•'));
}

#[test]
fn scripts_fall_back_where_a_character_has_no_form() {
    assert_eq!(latex_to_unicode("x^q"), "x^q");
    assert_eq!(latex_to_unicode("x^{2q}"), "x^2q");
    assert_eq!(latex_to_unicode("x^{}"), "x^");
    assert_eq!(latex_to_unicode("x^{10"), "x¹⁰");
    assert_eq!(latex_to_unicode("x^"), "x^");
}

#[test]
fn incomplete_fraction_and_wrapper_stay() {
    assert_eq!(latex_to_unicode("\\frac{a} b"), "\\fraca b");
    assert_eq!(latex_to_unicode("\\frac{a"), "\\fraca");
    assert_eq!(latex_to_unicode("\\frac{a} {b}"), "(a)/(b)");
    assert_eq!(latex_to_unicode("\\boxed{x"), "\\boxedx");
    assert_eq!(latex_to_unicode("\\frac{\\frac{a}{b}}{c}"), "((a)/(b))/(c)");
}

#[test]
fn symbols_left_and_spacing() {
    assert_eq!(latex_to_unicode("\\left( x \\right)"), "( x )");
    assert_eq!(latex_to_unicode("a\\quad b"), "a   b");
    assert_eq!(latex_to_unicode("x \\in A, y \\notin B"), "x ∈ A, y ∉ B");
    assert_eq!(latex_to_unicode("\\unknown"), "\\unknown");
}

#[test]
fn math_spans_and_their_delimiters() {
    assert_eq!(render_latex("a $$x^2$$ b"), format!("a {CYAN}x²{RESET} b"));
    assert_eq!(render_latex("a \\(x_1\\) b"), format!("a {CYAN}x₁{RESET} b"));
    assert_eq!(render_latex("costs $5 now"), "costs $5 now");
    assert_eq!(render_latex("see \\nabla here"), "see ∇ here");
    assert_eq!(render_latex("snake_case"), "snake_case");
}

#[test]
fn spans_get_their_styles() {
    assert_eq!(render_line("*a* _b_"), format!("{ITALIC}a{RESET} {ITALIC}b{RESET}"));
    assert_eq!(render_line("**x**"), format!("{BOLD}x{RESET}"));
    assert_eq!(render_line("`x*y*`"), format!("{YELLOW}x*y*{RESET}"));
    assert_eq!(render_line("a * b"), "a * b");
    assert_eq!(render_line("**"), "**");
}

#[test]
fn underscores_inside_words_stay() {
    assert_eq!(render_line("a_b and c_d"), "a_b and c_d");
    assert_eq!(render_line("snake_case_name"), "snake_case_name");
    assert_eq!(render_line("größe_ß_x"), "größe_ß_x");
    assert_eq!(render_line("_x_"), format!("{}x{}", ITALIC, RESET));
    assert_eq!(render_line("(_x y_)"), format!("({}x y{})", ITALIC, RESET));
    for c in ["file_name and other_name\n", "an _odd_ word\n"] {
        let mut s = MarkdownStream::new();
        let mut shown = String::new();
        for ch in c.chars() {
            shown.push_str(&s.push(&ch.to_string()));
        }
        assert_eq!(shown, format!("{}\n", render_line(c.trim_end())));
    }
}

#[test]
fn lines_of_each_kind() {
    assert_eq!(render_line("#### h"), format!("{BOLD}{CYAN}h{RESET}"));
    assert_eq!(render_line("### h"), format!("{BOLD}{CYAN}h{RESET}"));
    assert_eq!(render_line("## h"), format!("{BOLD}{CYAN}▌ h{RESET}"));
    assert_eq!(render_line("---"), format!("{DIM}────────────────────{RESET}"));
    assert_eq!(render_line("> q"), format!("{DIM}│{RESET} {ITALIC}q{RESET}"));
    assert_eq!(render_line("  + i"), format!("  {GREEN}•{RESET} i"));
    assert_eq!(render_line(" 12. i"), format!(" {GREEN}12.{RESET} i"));
    assert_eq!(render_line("a. i"), "a. i");
    assert_eq!(render_line("#hash"), "#hash");
}

#[test]
fn closing_markers_skip_escaped_ones() {
    assert_eq!(find_closing(&chars("a*b*"), 0, '*'), Some(1));
    assert_eq!(find_closing(&chars("a\\*b*"), 0, '*'), Some(4));
    assert_eq!(find_closing(&chars("a\\*b"), 0, '*'), None);
    assert_eq!(find_closing(&chars("ab"), 2, '*'), None);
    assert_eq!(find_closing(&chars("ab"), 9, '*'), None);
}

#[test]
fn boundary_stops_before_open_spans() {
    assert_eq!(safe_inline_boundary(&chars("plain"), 0), 5);
    assert_eq!(safe_inline_boundary(&chars("a **b"), 0), 2);
    assert_eq!(safe_inline_boundary(&chars("a **b** c"), 0), 9);
    assert_eq!(safe_inline_boundary(&chars("a `b"), 0), 2);
    assert_eq!(safe_inline_boundary(&chars("a $b$ $c"), 0), 6);
    assert_eq!(safe_inline_boundary(&chars("a \\nab"), 0), 2);
    assert_eq!(safe_inline_boundary(&chars("a \\nabla x"), 0), 10);
    assert_eq!(safe_inline_boundary(&chars("\\(x + "), 0), 0);
    assert_eq!(safe_inline_boundary(&chars("\\(x\\) y"), 0), 7);
    assert_eq!(safe_inline_boundary(&chars("ab"), 7), 2);
    assert_eq!(safe_inline_boundary(&chars("a $$x$"), 0), 2);
    assert_eq!(safe_inline_boundary(&chars("a $$x$$ b"), 0), 9);
    assert_eq!(safe_inline_boundary(&chars("a_b"), 0), 3);
    assert_eq!(safe_inline_boundary(&chars("_a_"), 0), 3);
    assert_eq!(safe_inline_boundary(&chars("a _b_"), 0), 5);
    assert_eq!(safe_inline_boundary(&chars("a _b"), 0), 2);
    assert_eq!(safe_inline_boundary(&chars("a _b_."), 0), 6);
}

#[test]
fn commands_are_held_while_a_group_is_open() {
    assert_eq!(safe_inline_boundary(&chars("\\frac{a b}{c"), 0), 0);
    assert_eq!(safe_inline_boundary(&chars("\\frac{a b}"), 0), 0);
    assert_eq!(safe_inline_boundary(&chars("\\frac{a b}{c d} x"), 0), 17);
    assert_eq!(safe_inline_boundary(&chars("x \\frac{\\alpha b}{c"), 0), 2);
    assert_eq!(safe_inline_boundary(&chars("x \\frac{a}{b}, so"), 0), 17);
    assert_eq!(safe_inline_boundary(&chars("\\frac{a}{b}\\cdot c"), 0), 18);
    assert_eq!(safe_inline_boundary(&chars("\\sqrt[3]{a b"), 0), 12);
    assert_eq!(safe_inline_boundary(&chars("\\{a b"), 0), 5);
    assert_eq!(safe_inline_boundary(&chars("\\{a"), 0), 0);
}

#[test]
fn streamed_fractions_come_whole() {
    for text in ["\\frac{a b}{c d}", "\\frac{\\alpha}{x^{2 n}}", "\\frac{}{}"] {
        for end in [" ", "\n"] {
            let mut s = MarkdownStream::new();
            let mut shown = String::new();
            for c in text.chars() {
                shown.push_str(&s.push(&c.to_string()));
            }
            assert_eq!(shown, "");
            assert_eq!(s.push(end), format!("{}{}", render_line(text), end));
        }
        let mut s = MarkdownStream::new();
        assert_eq!(s.push(text), "");
        assert_eq!(s.finish(), render_line(text));
    }
    let mut s = MarkdownStream::new();
    let shown = s.push("half is \\frac{a b}{c d} of it\n");
    assert_eq!(strip_ansi(&shown), "half is (a b)/(c d) of it\n");
}

#[test]
fn longer_names_are_replaced_first() {
    assert_eq!(latex_to_unicode("1 \\cdots n"), "1 ⋯ n");
    assert_eq!(latex_to_unicode("a \\cdot b"), "a · b");
    assert_eq!(latex_to_unicode("\\leftarrow \\int \\infty"), "← ∫ ∞");
}

#[test]
fn brace_groups() {
    assert!(brace_groups_closed(&chars("{a}{b}")));
    assert!(brace_groups_closed(&chars("{a} tail {")));
    assert!(!brace_groups_closed(&chars("{a")));
    assert!(!brace_groups_closed(&chars("")));
    assert!(brace_groups_closed(&chars("}")));
}

#[test]
fn utf8_lengths() {
    for c in ['a', 'é', '€', '🦙'] {
        let mut buf = [0u8; 4];
        let s = c.encode_utf8(&mut buf);
        assert_eq!(utf8_char_len(s.as_bytes()[0]), c.len_utf8());
    }
    assert_eq!(utf8_char_len(0x80), 1);
    assert_eq!(utf8_char_len(0xff), 1);
}

#[test]
fn prose_streams_as_it_comes() {
    let mut s = MarkdownStream::new();
    let mut shown = String::new();
    for c in ["He", "llo", " wor", "ld\n"] {
        shown.push_str(&s.push(c));
    }
    assert_eq!(shown, "Hello world\n");
    assert_eq!(s.finish(), "");
}

#[test]
fn spans_are_held_until_they_close() {
    let mut s = MarkdownStream::new();
    assert_eq!(s.push("Hello **bo"), "Hello ");
    assert_eq!(s.push("ld**"), format!("{BOLD}bold{RESET}"));
    assert_eq!(s.push(" `x"), " ");
    assert_eq!(s.finish(), "`x");
}

#[test]
fn chunking_does_not_change_what_is_shown() {
    let answer = "# Title\r\n- one *it*\n1. two\n```rust\nlet x = **y**;\n$$\n```\n$$\nx^2\n$$\nend $a_1$ done";
    let mut whole = MarkdownStream::new();
    let mut expected = whole.push(answer);
    expected.push_str(&whole.finish());
    for size in [1usize, 2, 3, 7] {
        let mut s = MarkdownStream::new();
        let mut shown = String::new();
        let all: Vec<char> = answer.chars().collect();
        for chunk in all.chunks(size) {
            shown.push_str(&s.push(&chunk.iter().collect::<String>()));
        }
        shown.push_str(&s.finish());
        assert_eq!(shown, expected);
    }
    assert!(expected.contains(&format!("{DIM}│{RESET} let x = **y**;\n")));
    assert!(expected.contains(&format!("{DIM}│{RESET} $$\n")));
    assert!(expected.contains(&format!("{DIM}┄┄ rust ┄┄{RESET}\n")));
    assert!(expected.contains(&format!("    {CYAN}x²{RESET}\n")));
    assert!(expected.ends_with(&format!("end {CYAN}a₁{RESET} done")));
}

#[test]
fn display_math_on_one_line_and_left_open() {
    let mut s = MarkdownStream::default();
    assert_eq!(s.push("\\[ x^2 \\]\n"), format!("    {CYAN}x²{RESET}\n"));
    assert_eq!(s.push("\\[\na\nb"), "");
    assert_eq!(s.finish(), format!("    {CYAN}a b{RESET}\n"));
    assert_eq!(s.push("plain text\n"), "plain text\n");
}

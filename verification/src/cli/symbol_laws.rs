//! What holds of the table of symbols.
use crate::cli::inline_laws;
use crate::cli::render;
use crate::cli::render_laws;
use crate::text;
use crate::text_laws;
use vstd::prelude::*;

verus! {

/// The name of the symbol in a row.
pub open spec fn name_of(k: int) -> Seq<char> {
    render::SYMBOLS@[k].0@
}

/// The symbol in a row.
pub open spec fn symbol_of(k: int) -> Seq<char> {
    render::SYMBOLS@[k].1@
}

#[verifier::rlimit(100)]
#[verifier::spinoff_prover]
proof fn lemma_name_char(k: int, m: int)
    requires
        0 <= k < 74,
        1 <= m < name_of(k).len(),
    ensures
        2 <= name_of(k).len() <= 15,
        name_of(k)[m] != '\\' && name_of(k)[m] != '{' && name_of(k)[m] != '}',
        name_of(k).len() > 2 ==> render::is_letter(name_of(k)[m]),
{
    reveal_strlit("\\alpha");
    reveal_strlit("\\beta");
    reveal_strlit("\\gamma");
    reveal_strlit("\\delta");
    reveal_strlit("\\epsilon");
    reveal_strlit("\\varepsilon");
    reveal_strlit("\\zeta");
    reveal_strlit("\\eta");
    reveal_strlit("\\theta");
    reveal_strlit("\\iota");
    reveal_strlit("\\kappa");
    reveal_strlit("\\lambda");
    reveal_strlit("\\mu");
    reveal_strlit("\\nu");
    reveal_strlit("\\xi");
    reveal_strlit("\\pi");
    reveal_strlit("\\rho");
    reveal_strlit("\\sigma");
    reveal_strlit("\\tau");
    reveal_strlit("\\phi");
    reveal_strlit("\\varphi");
    reveal_strlit("\\chi");
    reveal_strlit("\\psi");
    reveal_strlit("\\omega");
    reveal_strlit("\\Gamma");
    reveal_strlit("\\Delta");
    reveal_strlit("\\Theta");
    reveal_strlit("\\Lambda");
    reveal_strlit("\\Pi");
    reveal_strlit("\\Sigma");
    reveal_strlit("\\Phi");
    reveal_strlit("\\Psi");
    reveal_strlit("\\Omega");
    reveal_strlit("\\times");
    reveal_strlit("\\cdots");
    reveal_strlit("\\cdot");
    reveal_strlit("\\div");
    reveal_strlit("\\pm");
    reveal_strlit("\\leq");
    reveal_strlit("\\geq");
    reveal_strlit("\\neq");
    reveal_strlit("\\approx");
    reveal_strlit("\\equiv");
    reveal_strlit("\\propto");
    reveal_strlit("\\infty");
    reveal_strlit("\\rightarrow");
    reveal_strlit("\\to");
    reveal_strlit("\\leftarrow");
    reveal_strlit("\\Rightarrow");
    reveal_strlit("\\Leftarrow");
    reveal_strlit("\\leftrightarrow");
    reveal_strlit("\\sum");
    reveal_strlit("\\prod");
    reveal_strlit("\\int");
    reveal_strlit("\\partial");
    reveal_strlit("\\nabla");
    reveal_strlit("\\sqrt");
    reveal_strlit("\\forall");
    reveal_strlit("\\exists");
    reveal_strlit("\\in");
    reveal_strlit("\\notin");
    reveal_strlit("\\subset");
    reveal_strlit("\\cup");
    reveal_strlit("\\cap");
    reveal_strlit("\\emptyset");
    reveal_strlit("\\angle");
    reveal_strlit("\\degree");
    reveal_strlit("\\ldots");
    reveal_strlit("\\left");
    reveal_strlit("\\right");
    reveal_strlit("\\,");
    reveal_strlit("\\;");
    reveal_strlit("\\!");
    reveal_strlit("\\quad");
    assert(name_of(k).len() <= 15);
    assert(m == 1 || m == 2 || m == 3 || m == 4 || m == 5 || m == 6 || m == 7 || m == 8 || m == 9
        || m == 10 || m == 11 || m == 12 || m == 13 || m == 14);
}

#[verifier::rlimit(60)]
#[verifier::spinoff_prover]
proof fn lemma_name_start(k: int)
    requires
        0 <= k < 74,
    ensures
        name_of(k).len() >= 2,
        name_of(k)[0] == '\\',
{
    reveal_strlit("\\alpha");
    reveal_strlit("\\beta");
    reveal_strlit("\\gamma");
    reveal_strlit("\\delta");
    reveal_strlit("\\epsilon");
    reveal_strlit("\\varepsilon");
    reveal_strlit("\\zeta");
    reveal_strlit("\\eta");
    reveal_strlit("\\theta");
    reveal_strlit("\\iota");
    reveal_strlit("\\kappa");
    reveal_strlit("\\lambda");
    reveal_strlit("\\mu");
    reveal_strlit("\\nu");
    reveal_strlit("\\xi");
    reveal_strlit("\\pi");
    reveal_strlit("\\rho");
    reveal_strlit("\\sigma");
    reveal_strlit("\\tau");
    reveal_strlit("\\phi");
    reveal_strlit("\\varphi");
    reveal_strlit("\\chi");
    reveal_strlit("\\psi");
    reveal_strlit("\\omega");
    reveal_strlit("\\Gamma");
    reveal_strlit("\\Delta");
    reveal_strlit("\\Theta");
    reveal_strlit("\\Lambda");
    reveal_strlit("\\Pi");
    reveal_strlit("\\Sigma");
    reveal_strlit("\\Phi");
    reveal_strlit("\\Psi");
    reveal_strlit("\\Omega");
    reveal_strlit("\\times");
    reveal_strlit("\\cdots");
    reveal_strlit("\\cdot");
    reveal_strlit("\\div");
    reveal_strlit("\\pm");
    reveal_strlit("\\leq");
    reveal_strlit("\\geq");
    reveal_strlit("\\neq");
    reveal_strlit("\\approx");
    reveal_strlit("\\equiv");
    reveal_strlit("\\propto");
    reveal_strlit("\\infty");
    reveal_strlit("\\rightarrow");
    reveal_strlit("\\to");
    reveal_strlit("\\leftarrow");
    reveal_strlit("\\Rightarrow");
    reveal_strlit("\\Leftarrow");
    reveal_strlit("\\leftrightarrow");
    reveal_strlit("\\sum");
    reveal_strlit("\\prod");
    reveal_strlit("\\int");
    reveal_strlit("\\partial");
    reveal_strlit("\\nabla");
    reveal_strlit("\\sqrt");
    reveal_strlit("\\forall");
    reveal_strlit("\\exists");
    reveal_strlit("\\in");
    reveal_strlit("\\notin");
    reveal_strlit("\\subset");
    reveal_strlit("\\cup");
    reveal_strlit("\\cap");
    reveal_strlit("\\emptyset");
    reveal_strlit("\\angle");
    reveal_strlit("\\degree");
    reveal_strlit("\\ldots");
    reveal_strlit("\\left");
    reveal_strlit("\\right");
    reveal_strlit("\\,");
    reveal_strlit("\\;");
    reveal_strlit("\\!");
    reveal_strlit("\\quad");
}

#[verifier::rlimit(60)]
#[verifier::spinoff_prover]
proof fn lemma_symbol_is_literal(k: int)
    requires
        0 <= k < 74,
    ensures
        inline_laws::is_literal(symbol_of(k)),
{
    reveal_strlit("α");
    reveal_strlit("β");
    reveal_strlit("γ");
    reveal_strlit("δ");
    reveal_strlit("ε");
    reveal_strlit("ζ");
    reveal_strlit("η");
    reveal_strlit("θ");
    reveal_strlit("ι");
    reveal_strlit("κ");
    reveal_strlit("λ");
    reveal_strlit("μ");
    reveal_strlit("ν");
    reveal_strlit("ξ");
    reveal_strlit("π");
    reveal_strlit("ρ");
    reveal_strlit("σ");
    reveal_strlit("τ");
    reveal_strlit("φ");
    reveal_strlit("χ");
    reveal_strlit("ψ");
    reveal_strlit("ω");
    reveal_strlit("Γ");
    reveal_strlit("Δ");
    reveal_strlit("Θ");
    reveal_strlit("Λ");
    reveal_strlit("Π");
    reveal_strlit("Σ");
    reveal_strlit("Φ");
    reveal_strlit("Ψ");
    reveal_strlit("Ω");
    reveal_strlit("×");
    reveal_strlit("⋯");
    reveal_strlit("·");
    reveal_strlit("÷");
    reveal_strlit("±");
    reveal_strlit("≤");
    reveal_strlit("≥");
    reveal_strlit("≠");
    reveal_strlit("≈");
    reveal_strlit("≡");
    reveal_strlit("∝");
    reveal_strlit("∞");
    reveal_strlit("→");
    reveal_strlit("←");
    reveal_strlit("⇒");
    reveal_strlit("⇐");
    reveal_strlit("↔");
    reveal_strlit("∑");
    reveal_strlit("∏");
    reveal_strlit("∫");
    reveal_strlit("∂");
    reveal_strlit("∇");
    reveal_strlit("√");
    reveal_strlit("∀");
    reveal_strlit("∃");
    reveal_strlit("∈");
    reveal_strlit("∉");
    reveal_strlit("⊂");
    reveal_strlit("∪");
    reveal_strlit("∩");
    reveal_strlit("∅");
    reveal_strlit("∠");
    reveal_strlit("°");
    reveal_strlit("…");
    reveal_strlit("");
    reveal_strlit(" ");
    reveal_strlit("  ");
    let s = symbol_of(k);
    assert(s.len() <= 2);
    assert forall|i: int| 0 <= i < s.len() implies {
        let c = #[trigger] s[i];
        c != '\\' && c != '^' && c != '_' && c != '{' && c != '}'
    } by {
        assert(i == 0 || i == 1);
    }
}

/// A command is shown as its symbol wherever it stands, as a whole word: no shorter name
/// that it begins with takes its place, and the text around it stays.
pub proof fn law_commands_become_their_symbols(before: Seq<char>, k: int, after: Seq<char>)
    requires
        0 <= k < 74,
        inline_laws::is_literal(before),
        inline_laws::is_literal(after),
        after.len() > 0 ==> !render::is_letter(after[0]),
    ensures
        render::unicode_of(before + name_of(k) + after) == before + symbol_of(k) + after,
{
    let name = name_of(k);
    let s = before + name + after;
    let at = before.len() as int;
    lemma_name_start(k);
    assert(s[at] == '\\');
    assert forall|i: int| 0 <= i < s.len() implies #[trigger] s[i] != '{' && (i != at ==> s[i]
        != '\\') by {
        if i < at {
            assert(s[i] == before[i]);
        } else if i == at {
        } else if i < at + name.len() {
            lemma_name_char(k, i - at);
            assert(s[i] == name[i - at]);
        } else {
            assert(s[i] == after[i - at - name.len()]);
        }
    }
    lemma_no_group_no_wrapper(s, 6);
    reveal_strlit("\\frac{");
    lemma_no_group(s, "\\frac{"@, 5);
    let out = before + symbol_of(k) + after;
    lemma_symbol_is_literal(k);
    inline_laws::lemma_join_literals(before, symbol_of(k), after);
    lemma_earlier_rows_leave(before, k, after, k as nat);
    assert(s.subrange(at, at + name.len()) =~= name);
    inline_laws::lemma_only_backslash_is_at(s, at, name);
    assert(s.take(at) =~= before);
    assert(s.skip(at + name.len()) =~= after);
    assert(!after.contains('\\'));
    lemma_replaced_leaves(after, name, symbol_of(k));
    assert(text::replaced(s, name, symbol_of(k)) == out);
    lemma_later_rows_leave(s, out, k, 74);
    inline_laws::lemma_literal_stays(out);
    assert(!out.contains('^') && !out.contains('_') && !out.contains('{') && !out.contains('}'));
    inline_laws::lemma_scripts_leave(out, 0, '^', render::SUPERSCRIPTS@);
    assert(out.skip(0) =~= out);
    inline_laws::lemma_scripts_leave(out, 0, '_', render::SUBSCRIPTS@);
    inline_laws::lemma_braces_leave(out);
}

proof fn lemma_replaced_leaves(s: Seq<char>, pat: Seq<char>, with: Seq<char>)
    requires
        !s.contains('\\'),
        pat.len() > 0,
        pat[0] == '\\',
    ensures
        text::replaced(s, pat, with) == s,
{
    inline_laws::lemma_no_backslash_no_command(s, pat);
}

/// A pattern with a brace in it does not stand in a text without one.
proof fn lemma_no_group(s: Seq<char>, pat: Seq<char>, i: int)
    requires
        forall|j: int| 0 <= j < s.len() ==> #[trigger] s[j] != '{',
        0 <= i < pat.len(),
        pat[i] == '{',
    ensures
        text::occurrence_from(s, pat, 0) is None,
{
    text::lemma_occurrence_from(s, pat, 0);
    if let Some(k) = text::occurrence_from(s, pat, 0) {
        assert(s.subrange(k, k + pat.len())[i] == s[k + i]);
    }
}

proof fn lemma_no_group_no_wrapper(s: Seq<char>, k: nat)
    requires
        forall|j: int| 0 <= j < s.len() ==> #[trigger] s[j] != '{',
        k <= 6,
    ensures
        render::wrappers_stripped(s, k) == s,
    decreases k,
{
    if k > 0 {
        lemma_no_group_no_wrapper(s, (k - 1) as nat);
        reveal_strlit("\\boxed{");
        reveal_strlit("\\text{");
        reveal_strlit("\\mathrm{");
        reveal_strlit("\\mathbf{");
        reveal_strlit("\\mathit{");
        reveal_strlit("\\operatorname{");
        let pat = render::WRAPPERS@[k - 1]@;
        assert(pat[pat.len() - 1] == '{');
        lemma_no_group(s, pat, pat.len() - 1);
    }
}

/// The rows before a command's own leave it alone.
proof fn lemma_earlier_rows_leave(before: Seq<char>, k: int, after: Seq<char>, i: nat)
    requires
        0 <= i <= k < 74,
        inline_laws::is_literal(before),
        inline_laws::is_literal(after),
        after.len() > 0 ==> !render::is_letter(after[0]),
    ensures
        render::symbols_replaced(before + name_of(k) + after, i) == before + name_of(k) + after,
    decreases i,
{
    if i > 0 {
        let s = before + name_of(k) + after;
        let at = before.len() as int;
        lemma_earlier_rows_leave(before, k, after, (i - 1) as nat);
        let pat = name_of(i - 1);
        lemma_name_start(i - 1);
        lemma_name_start(k);
        render_laws::law_longer_names_come_first(i - 1, k);
        assert forall|j: int| 0 <= j < s.len() && j != at implies #[trigger] s[j] != '\\' by {
            if j < at {
                assert(s[j] == before[j]);
            } else if j < at + name_of(k).len() {
                lemma_name_char(k, j - at);
                assert(s[j] == name_of(k)[j - at]);
            } else {
                assert(s[j] == after[j - at - name_of(k).len()]);
            }
        }
        text::lemma_occurrence_from(s, pat, 0);
        inline_laws::lemma_only_backslash_is_at(s, at, pat);
        if let Some(p) = text::occurrence_from(s, pat, 0) {
            let n = name_of(k).len() as int;
            assert(s.subrange(at, at + pat.len()) == pat);
            if pat.len() <= n {
                assert(name_of(k).subrange(0, pat.len() as int) =~= s.subrange(
                    at,
                    at + pat.len(),
                ));
                assert(pat.is_prefix_of(name_of(k)));
            } else {
                lemma_name_char(i - 1, n);
                assert(s.subrange(at, at + pat.len())[n] == s[at + n]);
                assert(s[at + n] == after[0]);
            }
        }
    }
}

/// The rows behind a command's own find no command any more.
proof fn lemma_later_rows_leave(s: Seq<char>, out: Seq<char>, k: int, i: nat)
    requires
        0 <= k < i <= 74,
        inline_laws::is_literal(out),
        text::replaced(render::symbols_replaced(s, k as nat), name_of(k), symbol_of(k)) == out,
    ensures
        render::symbols_replaced(s, i) == out,
    decreases i,
{
    if i - 1 > k {
        lemma_later_rows_leave(s, out, k, (i - 1) as nat);
        lemma_name_start(i - 1);
        assert(!out.contains('\\'));
        lemma_replaced_leaves(out, name_of(i - 1), symbol_of(i - 1));
    }
}

/// The small Greek letters stand in the order of the alphabet, from alpha to omega, each
/// as one character, and a variant form shows the same letter as the plain one.
#[verifier::rlimit(60)]
#[verifier::spinoff_prover]
pub proof fn law_greek_letters_are_in_order(i: int, j: int)
    requires
        0 <= i <= j < 24,
    ensures
        symbol_of(i).len() == 1,
        symbol_of(0)[0] as u32 == 0x3b1,
        symbol_of(23)[0] as u32 == 0x3c9,
        symbol_of(i)[0] as u32 <= symbol_of(j)[0] as u32,
        symbol_of(i) == symbol_of(j) ==> i == j || name_of(j) == "\\var"@ + name_of(i).skip(1),
{
    reveal_strlit("\\alpha");
    reveal_strlit("\\beta");
    reveal_strlit("\\gamma");
    reveal_strlit("\\delta");
    reveal_strlit("\\epsilon");
    reveal_strlit("\\varepsilon");
    reveal_strlit("\\zeta");
    reveal_strlit("\\eta");
    reveal_strlit("\\theta");
    reveal_strlit("\\iota");
    reveal_strlit("\\kappa");
    reveal_strlit("\\lambda");
    reveal_strlit("\\mu");
    reveal_strlit("\\nu");
    reveal_strlit("\\xi");
    reveal_strlit("\\pi");
    reveal_strlit("\\rho");
    reveal_strlit("\\sigma");
    reveal_strlit("\\tau");
    reveal_strlit("\\phi");
    reveal_strlit("\\varphi");
    reveal_strlit("\\chi");
    reveal_strlit("\\psi");
    reveal_strlit("\\omega");
    reveal_strlit("α");
    reveal_strlit("β");
    reveal_strlit("γ");
    reveal_strlit("δ");
    reveal_strlit("ε");
    reveal_strlit("ζ");
    reveal_strlit("η");
    reveal_strlit("θ");
    reveal_strlit("ι");
    reveal_strlit("κ");
    reveal_strlit("λ");
    reveal_strlit("μ");
    reveal_strlit("ν");
    reveal_strlit("ξ");
    reveal_strlit("π");
    reveal_strlit("ρ");
    reveal_strlit("σ");
    reveal_strlit("τ");
    reveal_strlit("φ");
    reveal_strlit("χ");
    reveal_strlit("ψ");
    reveal_strlit("ω");
    reveal_strlit("\\var");
    assert("\\varepsilon"@ =~= "\\var"@ + "\\epsilon"@.skip(1));
    assert("\\varphi"@ =~= "\\var"@ + "\\phi"@.skip(1));
}

/// A capital Greek letter is the capital of the small letter of its name.
#[verifier::rlimit(60)]
#[verifier::spinoff_prover]
pub proof fn law_greek_capitals_match_their_letters(i: int, j: int)
    requires
        0 <= i < 24,
        24 <= j < 33,
        name_of(i).len() == name_of(j).len(),
        name_of(i)[1] as u32 == name_of(j)[1] as u32 + 0x20,
        forall|m: int| 2 <= m < name_of(i).len() ==> name_of(i)[m] == #[trigger] name_of(j)[m],
    ensures
        symbol_of(j).len() == 1,
        symbol_of(i)[0] as u32 == symbol_of(j)[0] as u32 + 0x20,
{
    reveal_strlit("\\alpha");
    reveal_strlit("\\beta");
    reveal_strlit("\\gamma");
    reveal_strlit("\\delta");
    reveal_strlit("\\epsilon");
    reveal_strlit("\\varepsilon");
    reveal_strlit("\\zeta");
    reveal_strlit("\\eta");
    reveal_strlit("\\theta");
    reveal_strlit("\\iota");
    reveal_strlit("\\kappa");
    reveal_strlit("\\lambda");
    reveal_strlit("\\mu");
    reveal_strlit("\\nu");
    reveal_strlit("\\xi");
    reveal_strlit("\\pi");
    reveal_strlit("\\rho");
    reveal_strlit("\\sigma");
    reveal_strlit("\\tau");
    reveal_strlit("\\phi");
    reveal_strlit("\\varphi");
    reveal_strlit("\\chi");
    reveal_strlit("\\psi");
    reveal_strlit("\\omega");
    reveal_strlit("\\Gamma");
    reveal_strlit("\\Delta");
    reveal_strlit("\\Theta");
    reveal_strlit("\\Lambda");
    reveal_strlit("\\Pi");
    reveal_strlit("\\Sigma");
    reveal_strlit("\\Phi");
    reveal_strlit("\\Psi");
    reveal_strlit("\\Omega");
    reveal_strlit("α");
    reveal_strlit("β");
    reveal_strlit("γ");
    reveal_strlit("δ");
    reveal_strlit("ε");
    reveal_strlit("ζ");
    reveal_strlit("η");
    reveal_strlit("θ");
    reveal_strlit("ι");
    reveal_strlit("κ");
    reveal_strlit("λ");
    reveal_strlit("μ");
    reveal_strlit("ν");
    reveal_strlit("ξ");
    reveal_strlit("π");
    reveal_strlit("ρ");
    reveal_strlit("σ");
    reveal_strlit("τ");
    reveal_strlit("φ");
    reveal_strlit("χ");
    reveal_strlit("ψ");
    reveal_strlit("ω");
    reveal_strlit("Γ");
    reveal_strlit("Δ");
    reveal_strlit("Θ");
    reveal_strlit("Λ");
    reveal_strlit("Π");
    reveal_strlit("Σ");
    reveal_strlit("Φ");
    reveal_strlit("Ψ");
    reveal_strlit("Ω");
    let a = name_of(i);
    let b = name_of(j);
    assert(a.len() > 2 ==> a[2] == b[2]);
    assert(a.len() > 3 ==> a[3] == b[3]);
    assert(a.len() > 4 ==> a[4] == b[4]);
}

/// Every capital has the small letter of its name in the table.
#[verifier::rlimit(60)]
#[verifier::spinoff_prover]
pub proof fn law_greek_capitals_have_small_letters(j: int)
    requires
        24 <= j < 33,
    ensures
        exists|i: int|
            0 <= i < 24 && #[trigger] name_of(i).len() == name_of(j).len() && name_of(i)[1] as u32
                == name_of(j)[1] as u32 + 0x20 && symbol_of(i)[0] as u32 == symbol_of(j)[0] as u32
                + 0x20,
{
    reveal_strlit("\\alpha");
    reveal_strlit("\\beta");
    reveal_strlit("\\gamma");
    reveal_strlit("\\delta");
    reveal_strlit("\\epsilon");
    reveal_strlit("\\varepsilon");
    reveal_strlit("\\zeta");
    reveal_strlit("\\eta");
    reveal_strlit("\\theta");
    reveal_strlit("\\iota");
    reveal_strlit("\\kappa");
    reveal_strlit("\\lambda");
    reveal_strlit("\\mu");
    reveal_strlit("\\nu");
    reveal_strlit("\\xi");
    reveal_strlit("\\pi");
    reveal_strlit("\\rho");
    reveal_strlit("\\sigma");
    reveal_strlit("\\tau");
    reveal_strlit("\\phi");
    reveal_strlit("\\varphi");
    reveal_strlit("\\chi");
    reveal_strlit("\\psi");
    reveal_strlit("\\omega");
    reveal_strlit("\\Gamma");
    reveal_strlit("\\Delta");
    reveal_strlit("\\Theta");
    reveal_strlit("\\Lambda");
    reveal_strlit("\\Pi");
    reveal_strlit("\\Sigma");
    reveal_strlit("\\Phi");
    reveal_strlit("\\Psi");
    reveal_strlit("\\Omega");
    reveal_strlit("α");
    reveal_strlit("β");
    reveal_strlit("γ");
    reveal_strlit("δ");
    reveal_strlit("ε");
    reveal_strlit("ζ");
    reveal_strlit("η");
    reveal_strlit("θ");
    reveal_strlit("ι");
    reveal_strlit("κ");
    reveal_strlit("λ");
    reveal_strlit("μ");
    reveal_strlit("ν");
    reveal_strlit("ξ");
    reveal_strlit("π");
    reveal_strlit("ρ");
    reveal_strlit("σ");
    reveal_strlit("τ");
    reveal_strlit("φ");
    reveal_strlit("χ");
    reveal_strlit("ψ");
    reveal_strlit("ω");
    reveal_strlit("Γ");
    reveal_strlit("Δ");
    reveal_strlit("Θ");
    reveal_strlit("Λ");
    reveal_strlit("Π");
    reveal_strlit("Σ");
    reveal_strlit("Φ");
    reveal_strlit("Ψ");
    reveal_strlit("Ω");
    if j == 24 {
        assert(name_of(2).len() == name_of(j).len());
    }
    if j == 25 {
        assert(name_of(3).len() == name_of(j).len());
    }
    if j == 26 {
        assert(name_of(8).len() == name_of(j).len());
    }
    if j == 27 {
        assert(name_of(11).len() == name_of(j).len());
    }
    if j == 28 {
        assert(name_of(15).len() == name_of(j).len());
    }
    if j == 29 {
        assert(name_of(17).len() == name_of(j).len());
    }
    if j == 30 {
        assert(name_of(19).len() == name_of(j).len());
    }
    if j == 31 {
        assert(name_of(22).len() == name_of(j).len());
    }
    if j == 32 {
        assert(name_of(23).len() == name_of(j).len());
    }
}

} // verus!

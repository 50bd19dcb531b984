//! Terminal rendering of model answers: Markdown with LaTeX math becomes
//! ANSI-styled text in which common math is spelled in Unicode.
//!
//! Offsets are counted in characters.
use crate::cli::style::{BOLD, CYAN, DIM, GREEN, ITALIC, MAGENTA, RESET, YELLOW};
use crate::number;
use crate::text;
use vstd::prelude::*;
use vstd::slice::slice_subrange;
use vstd::string::StringExecFns;

verus! {

broadcast use vstd::string::group_string_axioms;

// -------------------------------------------------------------- LaTeX pieces

/// Digits and letters with a superscript form.
pub const SUPERSCRIPTS: [(char, char); 17] = [
    ('0', '⁰'),
    ('1', '¹'),
    ('2', '²'),
    ('3', '³'),
    ('4', '⁴'),
    ('5', '⁵'),
    ('6', '⁶'),
    ('7', '⁷'),
    ('8', '⁸'),
    ('9', '⁹'),
    ('+', '⁺'),
    ('-', '⁻'),
    ('=', '⁼'),
    ('(', '⁽'),
    (')', '⁾'),
    ('n', 'ⁿ'),
    ('i', 'ⁱ'),
];

/// Digits with a subscript form.
pub const SUBSCRIPTS: [(char, char); 15] = [
    ('0', '₀'),
    ('1', '₁'),
    ('2', '₂'),
    ('3', '₃'),
    ('4', '₄'),
    ('5', '₅'),
    ('6', '₆'),
    ('7', '₇'),
    ('8', '₈'),
    ('9', '₉'),
    ('+', '₊'),
    ('-', '₋'),
    ('=', '₌'),
    ('(', '₍'),
    (')', '₎'),
];

/// Commands that only style their braced argument.
pub const WRAPPERS: [&'static str; 6] = [
    "\\boxed{",
    "\\text{",
    "\\mathrm{",
    "\\mathbf{",
    "\\mathit{",
    "\\operatorname{",
];

/// Commands with a symbol of their own, in the order in which they are replaced: a
/// longer name stands before one that it begins with.
pub const SYMBOLS: [(&'static str, &'static str); 74] = [
    ("\\alpha", "α"),
    ("\\beta", "β"),
    ("\\gamma", "γ"),
    ("\\delta", "δ"),
    ("\\epsilon", "ε"),
    ("\\varepsilon", "ε"),
    ("\\zeta", "ζ"),
    ("\\eta", "η"),
    ("\\theta", "θ"),
    ("\\iota", "ι"),
    ("\\kappa", "κ"),
    ("\\lambda", "λ"),
    ("\\mu", "μ"),
    ("\\nu", "ν"),
    ("\\xi", "ξ"),
    ("\\pi", "π"),
    ("\\rho", "ρ"),
    ("\\sigma", "σ"),
    ("\\tau", "τ"),
    ("\\phi", "φ"),
    ("\\varphi", "φ"),
    ("\\chi", "χ"),
    ("\\psi", "ψ"),
    ("\\omega", "ω"),
    ("\\Gamma", "Γ"),
    ("\\Delta", "Δ"),
    ("\\Theta", "Θ"),
    ("\\Lambda", "Λ"),
    ("\\Pi", "Π"),
    ("\\Sigma", "Σ"),
    ("\\Phi", "Φ"),
    ("\\Psi", "Ψ"),
    ("\\Omega", "Ω"),
    ("\\times", "×"),
    ("\\cdots", "⋯"),
    ("\\cdot", "·"),
    ("\\div", "÷"),
    ("\\pm", "±"),
    ("\\leq", "≤"),
    ("\\geq", "≥"),
    ("\\neq", "≠"),
    ("\\approx", "≈"),
    ("\\equiv", "≡"),
    ("\\propto", "∝"),
    ("\\infty", "∞"),
    ("\\rightarrow", "→"),
    ("\\to", "→"),
    ("\\leftarrow", "←"),
    ("\\Rightarrow", "⇒"),
    ("\\Leftarrow", "⇐"),
    ("\\leftrightarrow", "↔"),
    ("\\sum", "∑"),
    ("\\prod", "∏"),
    ("\\int", "∫"),
    ("\\partial", "∂"),
    ("\\nabla", "∇"),
    ("\\sqrt", "√"),
    ("\\forall", "∀"),
    ("\\exists", "∃"),
    ("\\in", "∈"),
    ("\\notin", "∉"),
    ("\\subset", "⊂"),
    ("\\cup", "∪"),
    ("\\cap", "∩"),
    ("\\emptyset", "∅"),
    ("\\angle", "∠"),
    ("\\degree", "°"),
    ("\\ldots", "…"),
    ("\\left", ""),
    ("\\right", ""),
    ("\\,", " "),
    ("\\;", " "),
    ("\\!", ""),
    ("\\quad", "  "),
];

/// The script form of `c` in a table: that of the first entry for `c`.
pub open spec fn script_form(table: Seq<(char, char)>, c: char) -> Option<char>
    decreases table.len(),
{
    if table.len() == 0 {
        None
    } else if table[0].0 == c {
        Some(table[0].1)
    } else {
        script_form(table.skip(1), c)
    }
}

/// The script form of a text, where each of its characters has one.
pub open spec fn script_text(table: Seq<(char, char)>, s: Seq<char>) -> Option<Seq<char>>
    decreases s.len(),
{
    if s.len() == 0 {
        Some(Seq::empty())
    } else {
        match (script_text(table, s.drop_last()), script_form(table, s.last())) {
            (Some(t), Some(c)) => Some(t.push(c)),
            _ => None,
        }
    }
}

fn find_script(table: &[(char, char)], c: char) -> (r: Option<char>)
    ensures
        r == script_form(table@, c),
{
    let mut i: usize = 0;
    assert(table@.skip(0) == table@);
    while i < table.len()
        invariant
            i <= table@.len(),
            script_form(table@, c) == script_form(table@.skip(i as int), c),
        decreases table@.len() - i,
    {
        assert(table@.skip(i as int).skip(1) == table@.skip(i + 1));
        if table[i].0 == c {
            return Some(table[i].1);
        }
        i = i + 1;
    }
    None
}

fn to_script(table: &[(char, char)], s: &[char]) -> (r: Option<Vec<char>>)
    ensures
        match r {
            Some(v) => script_text(table@, s@) == Some(v@),
            None => script_text(table@, s@) is None,
        },
{
    let mut out: Vec<char> = Vec::new();
    let mut i: usize = 0;
    assert(s@.take(0) == Seq::<char>::empty());
    while i < s.len()
        invariant
            i <= s@.len(),
            script_text(table@, s@.take(i as int)) == Some(out@),
        decreases s@.len() - i,
    {
        assert(s@.take(i + 1).drop_last() == s@.take(i as int));
        match find_script(table, s[i]) {
            Some(c) => {
                out.push(c);
            },
            None => {
                proof {
                    lemma_script_none(table@, s@, i as int);
                }
                return None;
            },
        }
        i = i + 1;
    }
    assert(s@.take(i as int) == s@);
    Some(out)
}

proof fn lemma_script_none(table: Seq<(char, char)>, s: Seq<char>, i: int)
    requires
        0 <= i < s.len(),
        script_form(table, s[i]) is None,
    ensures
        script_text(table, s) is None,
    decreases s.len(),
{
    if i < s.len() - 1 {
        assert(s.drop_last()[i] == s[i]);
        lemma_script_none(table, s.drop_last(), i);
    }
}

/// The argument of a script marker at `i`, and where it ends: a braced group up
/// to its closing brace (or the end), or a single character.
pub open spec fn script_argument(s: Seq<char>, i: int) -> (Seq<char>, int) {
    if s[i + 1] == '{' {
        match text::char_from(s, '}', i + 2) {
            Some(j) => (s.subrange(i + 2, j), j + 1),
            None => (s.skip(i + 2), s.len() as int),
        }
    } else {
        (seq![s[i + 1]], i + 2)
    }
}

/// What a script marker with its argument becomes: the script form, where every
/// character of a nonempty argument has one; else the marker and the argument.
pub open spec fn script_piece(
    marker: char,
    table: Seq<(char, char)>,
    argument: Seq<char>,
) -> Seq<char> {
    match script_text(table, argument) {
        Some(m) => if m.len() > 0 {
            m
        } else {
            seq![marker] + argument
        },
        None => seq![marker] + argument,
    }
}

/// The text from `i` on with the arguments of `marker` in script form.
pub open spec fn scripts_from(
    s: Seq<char>,
    i: int,
    marker: char,
    table: Seq<(char, char)>,
) -> Seq<char>
    decreases s.len() - i,
{
    if i < 0 || i >= s.len() {
        Seq::empty()
    } else if s[i] == marker && i + 1 < s.len() {
        let (argument, next) = script_argument(s, i);
        proof {
            text::lemma_char_from(s, '}', i + 2);
        }
        script_piece(marker, table, argument) + scripts_from(s, next, marker, table)
    } else {
        seq![s[i]] + scripts_from(s, i + 1, marker, table)
    }
}

/// Replaces `^x` / `_x` and `^{..}` / `_{..}` by script characters where every
/// character has one, and leaves a readable fallback elsewhere.
pub fn render_scripts(s: &[char], marker: char, table: &[(char, char)]) -> (out: Vec<char>)
    ensures
        out@ == scripts_from(s@, 0, marker, table@),
{
    let n: usize = s.len();
    let mut out: Vec<char> = Vec::new();
    let mut i: usize = 0;
    while i < n
        invariant
            n == s@.len(),
            i <= n,
            out@ + scripts_from(s@, i as int, marker, table@) == scripts_from(
                s@,
                0,
                marker,
                table@,
            ),
        decreases n - i,
    {
        let ghost before = out@;
        let ghost at = i as int;
        if s[i] == marker && n - i > 1 {
            proof {
                text::lemma_char_from(s@, '}', i + 2);
            }
            let argument: &[char];
            let next: usize;
            if s[i + 1] == '{' {
                match text::find_char_from(s, '}', i + 2) {
                    Some(j) => {
                        argument = slice_subrange(s, i + 2, j);
                        next = j + 1;
                    },
                    None => {
                        argument = slice_subrange(s, i + 2, n);
                        next = n;
                        assert(argument@ == s@.skip(i + 2));
                    },
                }
            } else {
                argument = slice_subrange(s, i + 1, i + 2);
                next = i + 2;
                assert(argument@ == seq![s@[i + 1]]);
            }
            let ghost piece = script_piece(marker, table@, argument@);
            match to_script(table, argument) {
                Some(m) => {
                    if m.len() > 0 {
                        text::push_chars(&mut out, m.as_slice());
                    } else {
                        out.push(marker);
                        text::push_chars(&mut out, argument);
                    }
                },
                None => {
                    out.push(marker);
                    text::push_chars(&mut out, argument);
                },
            }
            assert(out@ == before + piece);
            i = next;
            assert(out@ + scripts_from(s@, i as int, marker, table@) == before + (piece
                + scripts_from(s@, i as int, marker, table@)));
        } else {
            out.push(s[i]);
            i = i + 1;
            assert(out@ + scripts_from(s@, i as int, marker, table@) == before + (seq![s@[at]]
                + scripts_from(s@, i as int, marker, table@)));
        }
    }
    assert(scripts_from(s@, i as int, marker, table@) == Seq::<char>::empty());
    out
}

/// Where the brace group that is `depth` deep at `i` closes.
pub open spec fn brace_end(s: Seq<char>, i: int, depth: int) -> Option<int>
    decreases s.len() - i,
{
    if i < 0 || i >= s.len() {
        None
    } else if s[i] == '{' {
        brace_end(s, i + 1, depth + 1)
    } else if s[i] == '}' {
        if depth == 1 {
            Some(i)
        } else {
            brace_end(s, i + 1, depth - 1)
        }
    } else {
        brace_end(s, i + 1, depth)
    }
}

/// A closing brace found by `brace_end` stands at or after the start.
pub proof fn lemma_brace_end(s: Seq<char>, i: int, depth: int)
    ensures
        brace_end(s, i, depth) matches Some(k) ==> i <= k < s.len() && s[k] == '}',
    decreases s.len() - i,
{
    if 0 <= i < s.len() {
        if s[i] == '{' {
            lemma_brace_end(s, i + 1, depth + 1);
        } else if s[i] == '}' {
            lemma_brace_end(s, i + 1, depth - 1);
        } else {
            lemma_brace_end(s, i + 1, depth);
        }
    }
}

/// The text inside a brace group and the text after it, given the text right
/// after its opening brace.
pub open spec fn braced(s: Seq<char>) -> Option<(Seq<char>, Seq<char>)> {
    match brace_end(s, 0, 1) {
        Some(i) => Some((s.take(i), s.skip(i + 1))),
        None => None,
    }
}

/// Given the text right after a `{`, returns the text up to its closing brace
/// and the text after that brace.
pub fn take_braced_inner(s: &[char]) -> (r: Option<(&[char], &[char])>)
    ensures
        match r {
            Some((inner, rest)) => braced(s@) == Some((inner@, rest@)) && inner@.len() + rest@.len()
                + 1 == s@.len(),
            None => braced(s@) is None,
        },
{
    let n: usize = s.len();
    let mut nested: usize = 0;
    let mut i: usize = 0;
    while i < n
        invariant
            n == s@.len(),
            nested <= i <= n,
            brace_end(s@, 0, 1) == brace_end(s@, i as int, nested + 1),
        decreases n - i,
    {
        if s[i] == '{' {
            nested = nested + 1;
        } else if s[i] == '}' {
            if nested == 0 {
                return Some((slice_subrange(s, 0, i), slice_subrange(s, i + 1, n)));
            }
            nested = nested - 1;
        }
        i = i + 1;
    }
    None
}

/// `s` with each `opening` and its matching brace taken away, the text between
/// them kept, leftmost first, until none is left or one is not closed.
pub open spec fn unwrapped(s: Seq<char>, opening: Seq<char>) -> Seq<char>
    decreases s.len(),
{
    match text::occurrence_from(s, opening, 0) {
        Some(p) => {
            proof {
                text::lemma_occurrence_from(s, opening, 0);
                lemma_brace_end(s.skip(p + opening.len()), 0, 1);
            }
            match braced(s.skip(p + opening.len())) {
                Some((inner, rest)) => unwrapped(s.take(p) + inner + rest, opening),
                None => s,
            }
        },
        None => s,
    }
}

/// Removes a styling command such as `\boxed{..}` and keeps its argument.
/// `opening` is the command with its opening brace.
pub fn strip_wrapper(s: &[char], opening: &str) -> (out: Vec<char>)
    ensures
        out@ == unwrapped(s@, opening@),
{
    let width: usize = text::chars_of(opening).len();
    let mut out: Vec<char> = Vec::new();
    text::push_chars(&mut out, s);
    assert(out@ == s@);
    loop
        invariant
            width == opening@.len(),
            unwrapped(out@, opening@) == unwrapped(s@, opening@),
        decreases out@.len(),
    {
        let cur: &[char] = out.as_slice();
        let n: usize = cur.len();
        let p: usize = match text::find_from(cur, opening, 0) {
            Some(p) => p,
            None => {
                return out;
            },
        };
        let (inner, rest) = match take_braced_inner(slice_subrange(cur, p + width, n)) {
            Some(pair) => pair,
            None => {
                assert(braced(cur@.skip(p + opening@.len())) is None);
                return out;
            },
        };
        assert(cur@.subrange(p + width, n as int) == cur@.skip(p + opening@.len()));
        let mut next: Vec<char> = Vec::new();
        text::push_chars(&mut next, slice_subrange(cur, 0, p));
        text::push_chars(&mut next, inner);
        text::push_chars(&mut next, rest);
        assert(next@ == cur@.take(p as int) + inner@ + rest@);
        out = next;
    }
}

/// The numerator, the denominator and the text after a fraction, given the text
/// right after `\frac{`. Whitespace may stand between the two groups.
pub open spec fn fraction_parts(s: Seq<char>) -> Option<(Seq<char>, Seq<char>, Seq<char>)> {
    match braced(s) {
        Some((num, rest)) => {
            let t = text::trimmed_start(rest);
            if t.len() > 0 && t[0] == '{' {
                match braced(t.skip(1)) {
                    Some((den, after)) => Some((num, den, after)),
                    None => None,
                }
            } else {
                None
            }
        },
        None => None,
    }
}

/// `(num)/(den)`.
pub open spec fn fraction_text(num: Seq<char>, den: Seq<char>) -> Seq<char> {
    seq!['('] + num + seq![')', '/', '('] + den + seq![')']
}

/// The parts of a fraction leave out its three braces.
pub proof fn lemma_fraction_parts(s: Seq<char>)
    ensures
        fraction_parts(s) matches Some((num, den, after)) ==> num.len() + den.len() + after.len()
            + 3 <= s.len(),
{
    lemma_brace_end(s, 0, 1);
    if let Some((num, rest)) = braced(s) {
        text::lemma_leading_spaces(rest);
        let t = text::trimmed_start(rest);
        lemma_brace_end(t.skip(1), 0, 1);
    }
}

/// `s` with each `\frac{a}{b}` as `(a)/(b)`, leftmost first, until none is left
/// or one is incomplete.
pub open spec fn fractions_replaced(s: Seq<char>) -> Seq<char>
    decreases s.len(),
{
    match text::occurrence_from(s, "\\frac{"@, 0) {
        Some(p) => {
            let n = "\\frac{"@.len();
            proof {
                reveal_strlit("\\frac{");
                text::lemma_occurrence_from(s, "\\frac{"@, 0);
                lemma_fraction_parts(s.skip(p + n));
            }
            match fraction_parts(s.skip(p + n)) {
                Some((num, den, after)) => fractions_replaced(
                    s.take(p) + fraction_text(num, den) + after,
                ),
                None => s,
            }
        },
        None => s,
    }
}

fn split_fraction(s: &[char]) -> (r: Option<(&[char], &[char], &[char])>)
    ensures
        match r {
            Some((num, den, after)) => fraction_parts(s@) == Some((num@, den@, after@)),
            None => fraction_parts(s@) is None,
        },
{
    match take_braced_inner(s) {
        Some((num, rest)) => {
            let t: &[char] = text::trim_start(rest);
            let n: usize = t.len();
            if n > 0 && t[0] == '{' {
                let tail: &[char] = slice_subrange(t, 1, n);
                assert(tail@ == t@.skip(1));
                match take_braced_inner(tail) {
                    Some((den, after)) => Some((num, den, after)),
                    None => None,
                }
            } else {
                None
            }
        },
        None => None,
    }
}

/// Rewrites `\frac{a}{b}` as `(a)/(b)`, outermost first.
pub fn replace_frac(s: &[char]) -> (out: Vec<char>)
    ensures
        out@ == fractions_replaced(s@),
{
    let mut out: Vec<char> = Vec::new();
    text::push_chars(&mut out, s);
    assert(out@ == s@);
    proof {
        reveal_strlit("\\frac{");
    }
    loop
        invariant
            "\\frac{"@.len() == 6,
            fractions_replaced(out@) == fractions_replaced(s@),
        decreases out@.len(),
    {
        let cur: &[char] = out.as_slice();
        let n: usize = cur.len();
        let p: usize = match text::find_from(cur, "\\frac{", 0) {
            Some(p) => p,
            None => {
                return out;
            },
        };
        let after_open: &[char] = slice_subrange(cur, p + 6, n);
        assert(after_open@ == cur@.skip(p + 6));
        proof {
            lemma_fraction_parts(after_open@);
        }
        let (num, den, after) = match split_fraction(after_open) {
            Some(parts) => parts,
            None => {
                return out;
            },
        };
        let mut next: Vec<char> = Vec::new();
        text::push_chars(&mut next, slice_subrange(cur, 0, p));
        next.push('(');
        text::push_chars(&mut next, num);
        next.push(')');
        next.push('/');
        next.push('(');
        text::push_chars(&mut next, den);
        next.push(')');
        text::push_chars(&mut next, after);
        assert(next@ == cur@.take(p as int) + fraction_text(num@, den@) + after@);
        out = next;
    }
}

/// `s` unwrapped of the first `k` styling commands in turn.
pub open spec fn wrappers_stripped(s: Seq<char>, k: nat) -> Seq<char>
    decreases k,
{
    if k == 0 {
        s
    } else {
        unwrapped(wrappers_stripped(s, (k - 1) as nat), WRAPPERS@[k - 1]@)
    }
}

/// `s` with the first `k` commands of the symbol table replaced in turn.
pub open spec fn symbols_replaced(s: Seq<char>, k: nat) -> Seq<char>
    decreases k,
{
    if k == 0 {
        s
    } else {
        text::replaced(
            symbols_replaced(s, (k - 1) as nat),
            SYMBOLS@[k - 1].0@,
            SYMBOLS@[k - 1].1@,
        )
    }
}

/// A LaTeX math fragment in Unicode: styling commands unwrapped, fractions
/// written out, commands replaced by their symbols, scripts converted, leftover
/// braces dropped.
pub open spec fn unicode_of(s: Seq<char>) -> Seq<char> {
    let plain = fractions_replaced(wrappers_stripped(s, 6));
    let symbols = symbols_replaced(plain, 74);
    let raised = scripts_from(symbols, 0, '^', SUPERSCRIPTS@);
    let lowered = scripts_from(raised, 0, '_', SUBSCRIPTS@);
    text::replaced_chars(lowered, seq!['{', '}'], Seq::empty())
}

fn strip_wrappers(s: &[char]) -> (out: Vec<char>)
    ensures
        out@ == wrappers_stripped(s@, 6),
{
    let mut out: Vec<char> = Vec::new();
    text::push_chars(&mut out, s);
    assert(out@ == s@);
    let mut k: usize = 0;
    while k < 6
        invariant
            k <= 6,
            out@ == wrappers_stripped(s@, k as nat),
        decreases 6 - k,
    {
        out = strip_wrapper(out.as_slice(), WRAPPERS[k]);
        k = k + 1;
    }
    out
}

proof fn lemma_symbol_nonempty(k: int)
    requires
        0 <= k < 74,
    ensures
        SYMBOLS@[k].0@.len() > 0,
{
    reveal_strlit("\\alpha");
    reveal_strlit("\\beta");
    reveal_strlit("\\gamma");
    reveal_strlit("\\delta");
    reveal_strlit("\\epsilon");
    reveal_strlit("\\varepsilon");
    reveal_strlit("\\zeta");
    reveal_strlit("\\eta");
    reveal_strlit("\\theta");
    reveal_strlit("\\iota");
    reveal_strlit("\\kappa");
    reveal_strlit("\\lambda");
    reveal_strlit("\\mu");
    reveal_strlit("\\nu");
    reveal_strlit("\\xi");
    reveal_strlit("\\pi");
    reveal_strlit("\\rho");
    reveal_strlit("\\sigma");
    reveal_strlit("\\tau");
    reveal_strlit("\\phi");
    reveal_strlit("\\varphi");
    reveal_strlit("\\chi");
    reveal_strlit("\\psi");
    reveal_strlit("\\omega");
    reveal_strlit("\\Gamma");
    reveal_strlit("\\Delta");
    reveal_strlit("\\Theta");
    reveal_strlit("\\Lambda");
    reveal_strlit("\\Pi");
    reveal_strlit("\\Sigma");
    reveal_strlit("\\Phi");
    reveal_strlit("\\Psi");
    reveal_strlit("\\Omega");
    reveal_strlit("\\times");
    reveal_strlit("\\cdot");
    reveal_strlit("\\div");
    reveal_strlit("\\pm");
    reveal_strlit("\\leq");
    reveal_strlit("\\geq");
    reveal_strlit("\\neq");
    reveal_strlit("\\approx");
    reveal_strlit("\\equiv");
    reveal_strlit("\\propto");
    reveal_strlit("\\infty");
    reveal_strlit("\\rightarrow");
    reveal_strlit("\\to");
    reveal_strlit("\\leftarrow");
    reveal_strlit("\\Rightarrow");
    reveal_strlit("\\Leftarrow");
    reveal_strlit("\\leftrightarrow");
    reveal_strlit("\\sum");
    reveal_strlit("\\prod");
    reveal_strlit("\\int");
    reveal_strlit("\\partial");
    reveal_strlit("\\nabla");
    reveal_strlit("\\sqrt");
    reveal_strlit("\\forall");
    reveal_strlit("\\exists");
    reveal_strlit("\\in");
    reveal_strlit("\\notin");
    reveal_strlit("\\subset");
    reveal_strlit("\\cup");
    reveal_strlit("\\cap");
    reveal_strlit("\\emptyset");
    reveal_strlit("\\angle");
    reveal_strlit("\\degree");
    reveal_strlit("\\ldots");
    reveal_strlit("\\cdots");
    reveal_strlit("\\left");
    reveal_strlit("\\right");
    reveal_strlit("\\,");
    reveal_strlit("\\;");
    reveal_strlit("\\!");
    reveal_strlit("\\quad");
}

fn replace_symbols(s: &[char]) -> (out: Vec<char>)
    ensures
        out@ == symbols_replaced(s@, 74),
{
    let mut out: Vec<char> = Vec::new();
    text::push_chars(&mut out, s);
    assert(out@ == s@);
    let mut k: usize = 0;
    while k < 74
        invariant
            k <= 74,
            out@ == symbols_replaced(s@, k as nat),
        decreases 74 - k,
    {
        proof {
            lemma_symbol_nonempty(k as int);
        }
        let (tex, uni) = SYMBOLS[k];
        out = text::replace_all(out.as_slice(), tex, uni);
        k = k + 1;
    }
    out
}

/// Translates a LaTeX math fragment into Unicode; what it does not recognise
/// passes through.
pub fn latex_to_unicode(s: &str) -> (r: String)
    ensures
        r@ == unicode_of(s@),
{
    let chars = text::chars_of(s);
    let out = unicode_chars(chars.as_slice());
    text::string_of(out.as_slice())
}

fn unicode_chars(s: &[char]) -> (out: Vec<char>)
    ensures
        out@ == unicode_of(s@),
{
    let unwrapped_text = strip_wrappers(s);
    let plain = replace_frac(unwrapped_text.as_slice());
    let symbols = replace_symbols(plain.as_slice());
    let raised = render_scripts(symbols.as_slice(), '^', &SUPERSCRIPTS);
    let lowered = render_scripts(raised.as_slice(), '_', &SUBSCRIPTS);
    let braces: [char; 2] = ['{', '}'];
    assert(braces@ == seq!['{', '}']);
    let out = text::replace_chars(lowered.as_slice(), &braces, "");
    proof {
        reveal_strlit("");
        assert(""@ == Seq::<char>::empty());
    }
    out
}

// ------------------------------------------------------------- inline LaTeX

/// A region outside math delimiters: translated only where it holds a command.
pub open spec fn bare_of(s: Seq<char>) -> Seq<char> {
    if s.contains('\\') {
        unicode_of(s)
    } else {
        s
    }
}

/// The first math span opening in `s`, with its opening and closing delimiter.
/// Two dollars open together.
pub open spec fn math_opening(s: Seq<char>) -> Option<(int, Seq<char>, Seq<char>)> {
    let paren = text::occurrence_from(s, "\\("@, 0);
    match text::char_from(s, '$', 0) {
        Some(d) => if paren matches Some(p) && p < d {
            Some((paren->0, "\\("@, "\\)"@))
        } else if d + 1 < s.len() && s[d + 1] == '$' {
            Some((d, "$$"@, "$$"@))
        } else {
            Some((d, "$"@, "$"@))
        },
        None => match paren {
            Some(p) => Some((p, "\\("@, "\\)"@)),
            None => None,
        },
    }
}

/// A math span opening stands in the text with its opening delimiter, which is
/// not empty.
pub proof fn lemma_math_opening(s: Seq<char>)
    ensures
        math_opening(s) matches Some((start, open, close)) ==> 0 <= start && 0 < open.len() && 0
            < close.len() && start + open.len() <= s.len(),
{
    reveal_strlit("\\(");
    reveal_strlit("\\)");
    reveal_strlit("$$");
    reveal_strlit("$");
    text::lemma_occurrence_from(s, "\\("@, 0);
    text::lemma_char_from(s, '$', 0);
}

/// A line with its math spans translated and shown in cyan, and the text
/// between them translated where it holds a command. A span that is not closed
/// is text.
pub open spec fn latex_of(s: Seq<char>) -> Seq<char>
    decreases s.len(),
{
    match math_opening(s) {
        Some((start, open, close)) => {
            let after = s.skip(start + open.len());
            proof {
                lemma_math_opening(s);
                text::lemma_occurrence_from(after, close, 0);
            }
            match text::occurrence_from(after, close, 0) {
                Some(end) => bare_of(s.take(start)) + (CYAN@ + unicode_of(after.take(end)) + RESET@)
                    + latex_of(after.skip(end + close.len())),
                None => bare_of(s.take(start)) + bare_of(s.skip(start)),
            }
        },
        None => bare_of(s),
    }
}

/// Translates a region outside math delimiters where it holds a command.
pub fn convert_bare(s: &[char]) -> (out: Vec<char>)
    ensures
        out@ == bare_of(s@),
{
    if text::contains_char(s, '\\') {
        unicode_chars(s)
    } else {
        let mut out: Vec<char> = Vec::new();
        text::push_chars(&mut out, s);
        out
    }
}

fn find_math_opening(s: &[char]) -> (r: Option<(usize, &'static str, &'static str)>)
    ensures
        match r {
            Some((start, open, close)) => math_opening(s@) == Some((start as int, open@, close@)),
            None => math_opening(s@) is None,
        },
{
    let n: usize = s.len();
    let paren: Option<usize> = text::find_from(s, "\\(", 0);
    match text::find_char_from(s, '$', 0) {
        Some(d) => {
            if let Some(p) = paren {
                if p < d {
                    return Some((p, "\\(", "\\)"));
                }
            }
            if d < n - 1 && s[d + 1] == '$' {
                Some((d, "$$", "$$"))
            } else {
                Some((d, "$", "$"))
            }
        },
        None => match paren {
            Some(p) => Some((p, "\\(", "\\)")),
            None => None,
        },
    }
}

fn latex_chars(s: &[char]) -> (out: Vec<char>)
    ensures
        out@ == latex_of(s@),
{
    let mut out: Vec<char> = Vec::new();
    let mut rest: &[char] = s;
    loop
        invariant
            out@ + latex_of(rest@) == latex_of(s@),
        decreases rest@.len(),
    {
        let ghost before = out@;
        let n: usize = rest.len();
        proof {
            lemma_math_opening(rest@);
        }
        let (start, open, close) = match find_math_opening(rest) {
            Some(found) => found,
            None => {
                let tail = convert_bare(rest);
                text::push_chars(&mut out, tail.as_slice());
                return out;
            },
        };
        let open_len: usize = text::chars_of(open).len();
        let close_len: usize = text::chars_of(close).len();
        let head: &[char] = slice_subrange(rest, 0, start);
        let after: &[char] = slice_subrange(rest, start + open_len, n);
        let after_len: usize = after.len();
        assert(head@ == rest@.take(start as int));
        assert(after@ == rest@.skip(start + open@.len()));
        let plain = convert_bare(head);
        text::push_chars(&mut out, plain.as_slice());
        match text::find_from(after, close, 0) {
            Some(end) => {
                let inner: &[char] = slice_subrange(after, 0, end);
                let shown = unicode_chars(inner);
                text::push_text(&mut out, CYAN);
                text::push_chars(&mut out, shown.as_slice());
                text::push_text(&mut out, RESET);
                let next: &[char] = slice_subrange(after, end + close_len, after_len);
                assert(inner@ == after@.take(end as int));
                assert(next@ == after@.skip(end + close@.len()));
                assert(out@ + latex_of(next@) == before + (bare_of(head@) + (CYAN@ + unicode_of(
                    inner@,
                ) + RESET@) + latex_of(next@)));
                rest = next;
            },
            None => {
                let open_tail: &[char] = slice_subrange(rest, start, n);
                assert(open_tail@ == rest@.skip(start as int));
                let tail = convert_bare(open_tail);
                text::push_chars(&mut out, tail.as_slice());
                assert(out@ == before + (bare_of(head@) + bare_of(open_tail@)));
                return out;
            },
        }
    }
}

/// Converts inline LaTeX math into readable Unicode: `$..$`, `$$..$$` and
/// `\(..\)` spans, and commands that stand outside them.
pub fn render_latex(s: &str) -> (r: String)
    ensures
        r@ == latex_of(s@),
{
    let chars = text::chars_of(s);
    let out = latex_chars(chars.as_slice());
    text::string_of(out.as_slice())
}

// ------------------------------------------------------------- inline spans

/// The first unescaped `marker` at or after `i`: a backslash escapes the
/// character after it.
pub open spec fn closing_from(s: Seq<char>, marker: char, i: int) -> Option<int>
    decreases s.len() + 1 - i,
{
    if i < 0 || i >= s.len() {
        None
    } else if s[i] == marker {
        Some(i)
    } else if s[i] == '\\' {
        closing_from(s, marker, i + 2)
    } else {
        closing_from(s, marker, i + 1)
    }
}

/// A closing marker found from `i` stands at or after `i`.
pub proof fn lemma_closing_from(s: Seq<char>, marker: char, i: int)
    ensures
        closing_from(s, marker, i) matches Some(k) ==> i <= k < s.len() && s[k] == marker,
    decreases s.len() + 1 - i,
{
    if 0 <= i < s.len() && s[i] != marker {
        if s[i] == '\\' {
            lemma_closing_from(s, marker, i + 2);
        } else {
            lemma_closing_from(s, marker, i + 1);
        }
    }
}

/// Finds the next unescaped `marker` at or after `from`.
pub fn find_closing(s: &[char], from: usize, marker: char) -> (r: Option<usize>)
    ensures
        text::position(r) == closing_from(s@, marker, from as int),
        r matches Some(k) ==> from <= k < s@.len() && s@[k as int] == marker,
{
    let n: usize = s.len();
    let mut i: usize = from;
    while i < n
        invariant
            n == s@.len(),
            from <= i,
            closing_from(s@, marker, from as int) == closing_from(s@, marker, i as int),
        decreases n - i,
    {
        if s[i] == marker {
            return Some(i);
        }
        if s[i] == '\\' {
            if n - i <= 2 {
                assert(closing_from(s@, marker, i + 2) is None);
                return None;
            }
            i = i + 2;
        } else {
            i = i + 1;
        }
    }
    None
}

/// An inline span: its style, where its content starts and ends, and where the
/// text goes on.
pub struct Span {
    pub style: Seq<char>,
    pub start: int,
    pub end: int,
    pub next: int,
}

/// The character at `i` stands inside a word: between two letters or numbers.
pub open spec fn is_mid_word(s: Seq<char>, i: int) -> bool {
    0 < i < s.len() - 1 && text::is_word(s[i - 1]) && text::is_word(s[i + 1])
}

fn stands_mid_word(s: &[char], i: usize) -> (r: bool)
    requires
        i < s@.len(),
    ensures
        r == is_mid_word(s@, i as int),
{
    0 < i && i < s.len() - 1 && s[i - 1].is_alphanumeric() && s[i + 1].is_alphanumeric()
}

/// The inline span that starts at `i`: code, then bold, then italic. An italic
/// span is not empty and does not hold its marker, and an underscore inside a word
/// neither begins nor ends one.
pub open spec fn span_at(s: Seq<char>, i: int) -> Option<Span> {
    let c = s[i];
    if c == '`' && closing_from(s, '`', i + 1) is Some {
        let end = closing_from(s, '`', i + 1)->0;
        Some(Span { style: YELLOW@, start: i + 1, end, next: end + 1 })
    } else if c == '*' && i + 1 < s.len() && s[i + 1] == '*' && text::occurrence_from(
        s,
        "**"@,
        i + 2,
    ) is Some {
        let end = text::occurrence_from(s, "**"@, i + 2)->0;
        Some(Span { style: BOLD@, start: i + 2, end, next: end + 2 })
    } else if c == '*' || c == '_' {
        match closing_from(s, c, i + 1) {
            Some(end) => if i + 1 < end && !s.subrange(i + 1, end).contains(c) && !(c == '_' && (
            is_mid_word(s, i) || is_mid_word(s, end))) {
                Some(Span { style: ITALIC@, start: i + 1, end, next: end + 1 })
            } else {
                None
            },
            None => None,
        }
    } else {
        None
    }
}

/// A span lies in the text and ends after it starts.
pub proof fn lemma_span_at(s: Seq<char>, i: int)
    requires
        0 <= i < s.len(),
    ensures
        span_at(s, i) matches Some(span) ==> i < span.start <= span.end < span.next <= s.len(),
{
    reveal_strlit("**");
    lemma_closing_from(s, s[i], i + 1);
    text::lemma_occurrence_from(s, "**"@, i + 2);
}

/// The text from `i` on with its spans styled; other characters stand as they
/// are.
pub open spec fn spans_from(s: Seq<char>, i: int) -> Seq<char>
    decreases s.len() - i,
{
    if i < 0 || i >= s.len() {
        Seq::empty()
    } else {
        match span_at(s, i) {
            Some(span) => {
                proof {
                    lemma_span_at(s, i);
                }
                (span.style + s.subrange(span.start, span.end) + RESET@) + spans_from(s, span.next)
            },
            None => seq![s[i]] + spans_from(s, i + 1),
        }
    }
}

fn find_span(s: &[char], i: usize) -> (r: Option<(&'static str, usize, usize, usize)>)
    requires
        i < s@.len(),
    ensures
        match r {
            Some((style, start, end, next)) => span_at(s@, i as int) == Some(
                (Span { style: style@, start: start as int, end: end as int, next: next as int }),
            ) && i < start <= end < next <= s@.len(),
            None => span_at(s@, i as int) is None,
        },
{
    let n: usize = s.len();
    let c: char = s[i];
    proof {
        reveal_strlit("**");
        lemma_span_at(s@, i as int);
    }
    if c == '`' {
        if let Some(end) = find_closing(s, i + 1, '`') {
            return Some((YELLOW, i + 1, end, end + 1));
        }
    }
    if c == '*' && i < n - 1 && s[i + 1] == '*' {
        if let Some(end) = text::find_from(s, "**", i + 2) {
            return Some((BOLD, i + 2, end, end + 2));
        }
    }
    if c == '*' || c == '_' {
        if let Some(end) = find_closing(s, i + 1, c) {
            if i + 1 < end && !text::contains_char(slice_subrange(s, i + 1, end), c) && !(c == '_'
                && (stands_mid_word(s, i) || stands_mid_word(s, end))) {
                return Some((ITALIC, i + 1, end, end + 1));
            }
        }
    }
    None
}

/// Styles bold, italic and code spans; unmatched markers stay literal.
pub fn render_spans(s: &[char]) -> (out: Vec<char>)
    ensures
        out@ == spans_from(s@, 0),
{
    let n: usize = s.len();
    let mut out: Vec<char> = Vec::new();
    let mut i: usize = 0;
    while i < n
        invariant
            n == s@.len(),
            i <= n,
            out@ + spans_from(s@, i as int) == spans_from(s@, 0),
        decreases n - i,
    {
        let ghost before = out@;
        let ghost at = i as int;
        match find_span(s, i) {
            Some((style, start, end, next)) => {
                let content: &[char] = slice_subrange(s, start, end);
                text::push_text(&mut out, style);
                text::push_chars(&mut out, content);
                text::push_text(&mut out, RESET);
                i = next;
                assert(out@ + spans_from(s@, i as int) == before + ((style@ + content@ + RESET@)
                    + spans_from(s@, i as int)));
            },
            None => {
                out.push(s[i]);
                i = i + 1;
                assert(out@ + spans_from(s@, i as int) == before + (seq![s@[at]] + spans_from(
                    s@,
                    i as int,
                )));
            },
        }
    }
    assert(spans_from(s@, i as int) == Seq::<char>::empty());
    out
}

/// A text with its math translated, then its spans styled.
pub open spec fn inline_of(s: Seq<char>) -> Seq<char> {
    spans_from(latex_of(s), 0)
}

/// Renders inline Markdown spans and inline LaTeX math.
pub fn inline(s: &[char]) -> (out: Vec<char>)
    ensures
        out@ == inline_of(s@),
{
    let latex = latex_chars(s);
    render_spans(latex.as_slice())
}

/// Renders a fragment of inline text, with no block prefix.
pub fn render_inline_fragment(s: &[char]) -> (out: Vec<char>)
    ensures
        out@ == inline_of(s@),
{
    inline(s)
}

// ---------------------------------------------------------------- whole lines

/// The number and the text of an ordered list item `N. text`.
pub open spec fn numbered(s: Seq<char>) -> Option<(Seq<char>, Seq<char>)> {
    match text::occurrence_from(s, ". "@, 0) {
        Some(dot) => if dot > 0 && number::all_digits(s.take(dot)) {
            Some((s.take(dot), s.skip(dot + 2)))
        } else {
            None
        },
        None => None,
    }
}

/// A bullet list item: `- `, `* ` or `+ `.
pub open spec fn bulleted(s: Seq<char>) -> bool {
    "- "@.is_prefix_of(s) || "* "@.is_prefix_of(s) || "+ "@.is_prefix_of(s)
}

/// One Markdown line, outside code and math blocks: a heading, a rule, a quote, a
/// list item with its indentation, or plain inline text.
pub open spec fn line_of(line: Seq<char>) -> Seq<char> {
    let t = text::trimmed_start(line);
    let indent = line.take(text::leading_spaces(line));
    if "#### "@.is_prefix_of(t) {
        BOLD@ + CYAN@ + inline_of(t.skip(5)) + RESET@
    } else if "### "@.is_prefix_of(t) {
        BOLD@ + CYAN@ + inline_of(t.skip(4)) + RESET@
    } else if "## "@.is_prefix_of(t) {
        BOLD@ + CYAN@ + "▌ "@ + inline_of(t.skip(3)) + RESET@
    } else if "# "@.is_prefix_of(t) {
        BOLD@ + MAGENTA@ + "▌ "@ + inline_of(t.skip(2)) + RESET@
    } else if t == "---"@ || t == "***"@ || t == "___"@ {
        DIM@ + "────────────────────"@ + RESET@
    } else if "> "@.is_prefix_of(t) {
        DIM@ + "│"@ + RESET@ + " "@ + ITALIC@ + inline_of(t.skip(2)) + RESET@
    } else if bulleted(t) {
        indent + GREEN@ + "•"@ + RESET@ + " "@ + inline_of(t.skip(2))
    } else {
        match numbered(t) {
            Some((num, rest)) => indent + GREEN@ + num + "."@ + RESET@ + " "@ + inline_of(rest),
            None => inline_of(line),
        }
    }
}

/// Splits an ordered list item `N. text` into its number and its text.
pub fn split_numbered_list(s: &[char]) -> (r: Option<(&[char], &[char])>)
    ensures
        match r {
            Some((num, rest)) => numbered(s@) == Some((num@, rest@)) && num@.len() + 2 + rest@.len()
                == s@.len(),
            None => numbered(s@) is None,
        },
{
    proof {
        reveal_strlit(". ");
    }
    let n: usize = s.len();
    match text::find_from(s, ". ", 0) {
        Some(dot) => {
            let num: &[char] = slice_subrange(s, 0, dot);
            let rest: &[char] = slice_subrange(s, dot + 2, n);
            assert(num@ == s@.take(dot as int));
            assert(rest@ == s@.skip(dot + 2));
            let mut i: usize = 0;
            while i < dot
                invariant
                    dot == num@.len(),
                    i <= dot,
                    num@ == s@.take(dot as int),
                    text::occurrence_from(s@, ". "@, 0) == Some(dot as int),
                    forall|j: int| 0 <= j < i ==> number::is_digit(#[trigger] num@[j]),
                decreases dot - i,
            {
                if num[i] < '0' || num[i] > '9' {
                    assert(!number::all_digits(num@)) by {
                        assert(!number::is_digit(num@[i as int]));
                    }
                    return None;
                }
                i = i + 1;
            }
            if dot == 0 {
                return None;
            }
            assert(number::all_digits(num@));
            Some((num, rest))
        },
        None => None,
    }
}

fn concat5(a: &str, b: &str, c: &str, d: &[char], e: &str) -> (out: Vec<char>)
    ensures
        out@ == a@ + b@ + c@ + d@ + e@,
{
    let mut out: Vec<char> = Vec::new();
    text::push_text(&mut out, a);
    text::push_text(&mut out, b);
    text::push_text(&mut out, c);
    text::push_chars(&mut out, d);
    text::push_text(&mut out, e);
    assert(out@ == a@ + b@ + c@ + d@ + e@);
    out
}

/// A list item as shown: its indentation, its mark in green, its text.
fn list_item(indent: &[char], mark: &[char], dot: &str, rest: &[char]) -> (out: Vec<char>)
    ensures
        out@ == indent@ + GREEN@ + mark@ + dot@ + RESET@ + " "@ + rest@,
{
    let mut out: Vec<char> = Vec::new();
    text::push_chars(&mut out, indent);
    text::push_text(&mut out, GREEN);
    text::push_chars(&mut out, mark);
    text::push_text(&mut out, dot);
    text::push_text(&mut out, RESET);
    text::push_text(&mut out, " ");
    text::push_chars(&mut out, rest);
    assert(out@ == indent@ + GREEN@ + mark@ + dot@ + RESET@ + " "@ + rest@);
    out
}

fn is_bulleted(s: &[char]) -> (r: bool)
    ensures
        r == bulleted(s@),
{
    text::starts_with(s, "- ") || text::starts_with(s, "* ") || text::starts_with(s, "+ ")
}

proof fn lemma_empty_text()
    ensures
        ""@ == Seq::<char>::empty(),
{
    reveal_strlit("");
    assert(""@ =~= Seq::<char>::empty());
}

fn line_chars(line: &[char]) -> (out: Vec<char>)
    ensures
        out@ == line_of(line@),
{
    let depth: usize = text::count_leading_spaces(line);
    let n: usize = line.len();
    let t: &[char] = slice_subrange(line, depth, n);
    let indent: &[char] = slice_subrange(line, 0, depth);
    assert(t@ == text::trimmed_start(line@));
    assert(indent@ == line@.take(text::leading_spaces(line@)));
    proof {
        reveal_strlit("#### ");
        reveal_strlit("### ");
        reveal_strlit("## ");
        reveal_strlit("# ");
        reveal_strlit("> ");
        reveal_strlit("- ");
        reveal_strlit("* ");
        reveal_strlit("+ ");
        lemma_empty_text();
    }
    if let Some(rest) = text::strip_prefix(t, "#### ") {
        let shown = inline(rest);
        let out = concat5(BOLD, CYAN, "", shown.as_slice(), RESET);
        assert(out@ == BOLD@ + CYAN@ + shown@ + RESET@);
        return out;
    }
    if let Some(rest) = text::strip_prefix(t, "### ") {
        let shown = inline(rest);
        let out = concat5(BOLD, CYAN, "", shown.as_slice(), RESET);
        assert(out@ == BOLD@ + CYAN@ + shown@ + RESET@);
        return out;
    }
    if let Some(rest) = text::strip_prefix(t, "## ") {
        let shown = inline(rest);
        return concat5(BOLD, CYAN, "▌ ", shown.as_slice(), RESET);
    }
    if let Some(rest) = text::strip_prefix(t, "# ") {
        let shown = inline(rest);
        return concat5(BOLD, MAGENTA, "▌ ", shown.as_slice(), RESET);
    }
    if text::is_text(t, "---") || text::is_text(t, "***") || text::is_text(t, "___") {
        let rule = text::chars_of("────────────────────");
        let out = concat5(DIM, "", "", rule.as_slice(), RESET);
        assert(out@ == DIM@ + "────────────────────"@ + RESET@);
        return out;
    }
    if let Some(rest) = text::strip_prefix(t, "> ") {
        let shown = inline(rest);
        let mut out = text::chars_of(DIM);
        text::push_text(&mut out, "│");
        text::push_text(&mut out, RESET);
        let tail = concat5(" ", ITALIC, "", shown.as_slice(), RESET);
        text::push_chars(&mut out, tail.as_slice());
        assert(out@ == DIM@ + "│"@ + RESET@ + " "@ + ITALIC@ + shown@ + RESET@);
        return out;
    }
    if is_bulleted(t) {
        let rest: &[char] = slice_subrange(t, 2, t.len());
        assert(rest@ == t@.skip(2));
        let shown = inline(rest);
        let mark = text::chars_of("•");
        let out = list_item(indent, mark.as_slice(), "", shown.as_slice());
        assert(out@ == indent@ + GREEN@ + "•"@ + RESET@ + " "@ + shown@);
        return out;
    }
    if let Some((num, rest)) = split_numbered_list(t) {
        let shown = inline(rest);
        return list_item(indent, num, ".", shown.as_slice());
    }
    inline(line)
}

/// Renders one Markdown line, not inside a code block, to ANSI and Unicode.
pub fn render_line(line: &str) -> (r: String)
    ensures
        r@ == line_of(line@),
{
    let chars = text::chars_of(line);
    let out = line_chars(chars.as_slice());
    text::string_of(out.as_slice())
}

// ------------------------------------------------------------------ streaming

/// The styled prefix of a list item and how much of the line it stands for;
/// nothing for other lines.
pub open spec fn prefix_of(line: Seq<char>) -> (Seq<char>, int) {
    let t = text::trimmed_start(line);
    let depth = text::leading_spaces(line);
    if bulleted(t) {
        (line.take(depth) + GREEN@ + "•"@ + RESET@ + " "@, depth + 2)
    } else {
        match numbered(t) {
            Some((num, _)) => (
                line.take(depth) + GREEN@ + num + "."@ + RESET@ + " "@,
                depth + num.len() + 2,
            ),
            None => (Seq::empty(), 0),
        }
    }
}

/// Detects a list item at the start of `line` and returns its styled prefix with
/// the number of characters that the prefix stands for.
pub fn block_prefix(line: &[char]) -> (r: (Vec<char>, usize))
    ensures
        (r.0@, r.1 as int) == prefix_of(line@),
        r.1 <= line@.len(),
{
    let depth: usize = text::count_leading_spaces(line);
    let n: usize = line.len();
    let t: &[char] = slice_subrange(line, depth, n);
    let indent: &[char] = slice_subrange(line, 0, depth);
    assert(t@ == text::trimmed_start(line@));
    assert(indent@ == line@.take(depth as int));
    let none: Vec<char> = Vec::new();
    proof {
        reveal_strlit("- ");
        reveal_strlit("* ");
        reveal_strlit("+ ");
        lemma_empty_text();
    }
    if is_bulleted(t) {
        let mark = text::chars_of("•");
        let out = list_item(indent, mark.as_slice(), "", none.as_slice());
        assert(out@ == indent@ + GREEN@ + "•"@ + RESET@ + " "@);
        return (out, depth + 2);
    }
    if let Some((num, _)) = split_numbered_list(t) {
        let out = list_item(indent, num, ".", none.as_slice());
        assert(out@ == indent@ + GREEN@ + num@ + "."@ + RESET@ + " "@);
        return (out, depth + num.len() + 2);
    }
    (none, 0)
}

/// An ASCII letter, as the names of commands are made of.
pub open spec fn is_letter(c: char) -> bool {
    'a' <= c <= 'z' || 'A' <= c <= 'Z'
}

/// Where the letters from `i` on end.
pub open spec fn name_end(s: Seq<char>, i: int) -> int
    decreases s.len() - i,
{
    if i < 0 || i >= s.len() {
        s.len() as int
    } else if is_letter(s[i]) {
        name_end(s, i + 1)
    } else {
        i
    }
}

/// Where the run of brace groups that is `depth` deep at `i` ends: at the first
/// character past its last group. None where the text ends before that shows.
pub open spec fn run_end(s: Seq<char>, i: int, depth: int) -> Option<int>
    decreases s.len() - i,
{
    if i < 0 || i >= s.len() {
        None
    } else if s[i] == '{' {
        run_end(s, i + 1, depth + 1)
    } else if depth <= 0 {
        Some(i)
    } else if s[i] == '}' {
        run_end(s, i + 1, depth - 1)
    } else {
        run_end(s, i + 1, depth)
    }
}

/// The whitespace or the backslash that shows that a command is whole: the first
/// from `i` on.
pub open spec fn command_end(s: Seq<char>, i: int) -> Option<int>
    decreases s.len() - i,
{
    if i < 0 || i >= s.len() {
        None
    } else if text::is_space(s[i]) || s[i] == '\\' {
        Some(i)
    } else {
        command_end(s, i + 1)
    }
}

/// Where the piece that the command at `i` makes up ends, once the command is whole.
/// A name with brace groups behind it ends with the last of them; of another
/// command the piece is its backslash.
pub open spec fn command_piece_end(s: Seq<char>, i: int) -> Option<int> {
    let j = name_end(s, i + 1);
    if i + 1 < j < s.len() && s[j] == '{' {
        match run_end(s, j, 0) {
            Some(e) => if command_end(s, e) is Some {
                Some(e)
            } else {
                None
            },
            None => None,
        }
    } else if command_end(s, i + 1) is Some {
        Some(i + 1)
    } else {
        None
    }
}

/// The letters of a name end inside the text, and a run of groups past its start.
pub proof fn lemma_name_and_run(s: Seq<char>, i: int, depth: int)
    requires
        0 <= i <= s.len(),
    ensures
        i <= name_end(s, i) <= s.len(),
        run_end(s, i, depth) matches Some(e) ==> i <= e < s.len(),
        i < s.len() && s[i] == '{' ==> (run_end(s, i, depth) matches Some(e) ==> i < e),
    decreases s.len() - i,
{
    if i < s.len() {
        lemma_name_and_run(s, i + 1, depth);
        if s[i] == '{' {
            lemma_name_and_run(s, i + 1, depth + 1);
        } else if s[i] == '}' {
            lemma_name_and_run(s, i + 1, depth - 1);
        }
    }
}

/// Where the piece of inline text that starts at `i` ends, once it is complete:
/// a span past its closing marker, a command once the next whitespace or command
/// shows that its name and its brace groups are whole, and any other character by
/// itself.
pub open spec fn piece_end(s: Seq<char>, i: int) -> Option<int> {
    let c = s[i];
    if c == '`' {
        match closing_from(s, c, i + 1) {
            Some(k) => Some(k + 1),
            None => None,
        }
    } else if c == '_' {
        if is_mid_word(s, i) {
            Some(i + 1)
        } else {
            match closing_from(s, c, i + 1) {
                Some(k) => if is_mid_word(s, k) {
                    Some(i + 1)
                } else {
                    Some(k + 1)
                },
                None => None,
            }
        }
    } else if c == '$' {
        if text::occurs_at(s, "$$"@, i) {
            match text::occurrence_from(s, "$$"@, i + 2) {
                Some(k) => Some(k + 2),
                None => None,
            }
        } else {
            match text::char_from(s, '$', i + 1) {
                Some(k) => Some(k + 1),
                None => None,
            }
        }
    } else if c == '*' {
        if text::occurs_at(s, "**"@, i) {
            match text::occurrence_from(s, "**"@, i + 2) {
                Some(k) => Some(k + 2),
                None => None,
            }
        } else {
            match closing_from(s, '*', i + 1) {
                Some(k) => Some(k + 1),
                None => None,
            }
        }
    } else if c == '\\' {
        if text::occurs_at(s, "\\("@, i) {
            match text::occurrence_from(s, "\\)"@, i) {
                Some(k) => Some(k + 2),
                None => None,
            }
        } else {
            command_piece_end(s, i)
        }
    } else {
        Some(i + 1)
    }
}

/// A complete piece ends after it starts, inside the text.
pub proof fn lemma_piece_end(s: Seq<char>, i: int)
    requires
        0 <= i < s.len(),
    ensures
        piece_end(s, i) matches Some(k) ==> i < k <= s.len(),
{
    reveal_strlit("**");
    reveal_strlit("$$");
    reveal_strlit("\\)");
    lemma_closing_from(s, s[i], i + 1);
    text::lemma_char_from(s, '$', i + 1);
    text::lemma_occurrence_from(s, "**"@, i + 2);
    text::lemma_occurrence_from(s, "$$"@, i + 2);
    text::lemma_occurrence_from(s, "\\)"@, i);
    lemma_name_and_run(s, i + 1, 0);
    lemma_name_and_run(s, name_end(s, i + 1), 0);
}

/// How far the text can be shown from `i` on: up to the first piece that is not
/// complete, or to the end.
pub open spec fn boundary_from(s: Seq<char>, i: int) -> int
    decreases s.len() - i,
{
    if i < 0 || i >= s.len() {
        s.len() as int
    } else {
        match piece_end(s, i) {
            Some(k) => {
                proof {
                    lemma_piece_end(s, i);
                }
                boundary_from(s, k)
            },
            None => i,
        }
    }
}

fn find_name_end(s: &[char], from: usize) -> (r: usize)
    requires
        from <= s@.len(),
    ensures
        r == name_end(s@, from as int),
        from <= r <= s@.len(),
{
    let n: usize = s.len();
    let mut i: usize = from;
    while i < n
        invariant
            n == s@.len(),
            from <= i <= n,
            name_end(s@, from as int) == name_end(s@, i as int),
        decreases n - i,
    {
        let c: char = s[i];
        if !(('a' <= c && c <= 'z') || ('A' <= c && c <= 'Z')) {
            return i;
        }
        i = i + 1;
    }
    n
}

fn find_run_end(s: &[char], from: usize) -> (r: Option<usize>)
    requires
        from <= s@.len(),
    ensures
        text::position(r) == run_end(s@, from as int, 0),
{
    let n: usize = s.len();
    let mut depth: usize = 0;
    let mut i: usize = from;
    while i < n
        invariant
            n == s@.len(),
            depth <= i <= n,
            run_end(s@, from as int, 0) == run_end(s@, i as int, depth as int),
        decreases n - i,
    {
        if s[i] == '{' {
            depth = depth + 1;
        } else if depth == 0 {
            return Some(i);
        } else if s[i] == '}' {
            depth = depth - 1;
        }
        i = i + 1;
    }
    None
}

fn is_command_whole(s: &[char], from: usize) -> (r: bool)
    requires
        from <= s@.len(),
    ensures
        r == command_end(s@, from as int) is Some,
{
    let n: usize = s.len();
    let mut i: usize = from;
    while i < n
        invariant
            n == s@.len(),
            i <= n,
            command_end(s@, from as int) == command_end(s@, i as int),
        decreases n - i,
    {
        if text::is_whitespace(s[i]) || s[i] == '\\' {
            return true;
        }
        i = i + 1;
    }
    false
}

/// A run of groups that has ended is balanced.
pub proof fn lemma_ended_run_is_closed(s: Seq<char>, j: int, i: int, depth: int, seen_open: bool)
    requires
        0 <= j <= s.len(),
        0 <= i <= s.len() - j,
        0 <= depth,
        seen_open || (depth == 0 && i + j < s.len() && s[i + j] == '{'),
        run_end(s, i + j, depth) is Some,
    ensures
        groups_closed(s.skip(j), i, depth, seen_open),
    decreases s.len() - i,
{
    let t = s.skip(j);
    assert(t[i] == s[i + j]);
    if t[i] == '{' {
        lemma_ended_run_is_closed(s, j, i + 1, depth + 1, true);
    } else if depth > 0 {
        lemma_ended_run_is_closed(
            s,
            j,
            i + 1,
            if t[i] == '}' {
                depth - 1
            } else {
                depth
            },
            seen_open,
        );
    }
}

fn find_command_piece_end(s: &[char], i: usize) -> (r: Option<usize>)
    requires
        i < s@.len(),
    ensures
        text::position(r) == command_piece_end(s@, i as int),
{
    let n: usize = s.len();
    let j: usize = find_name_end(s, i + 1);
    if i + 1 < j && j < n && s[j] == '{' {
        let groups: &[char] = slice_subrange(s, j, n);
        assert(groups@ == s@.skip(j as int));
        if !brace_groups_closed(groups) {
            proof {
                if run_end(s@, j as int, 0) is Some {
                    lemma_ended_run_is_closed(s@, j as int, 0, 0, false);
                }
            }
            return None;
        }
        proof {
            lemma_name_and_run(s@, j as int, 0);
        }
        return match find_run_end(s, j) {
            Some(e) => if is_command_whole(s, e) {
                Some(e)
            } else {
                None
            },
            None => None,
        };
    }
    if is_command_whole(s, i + 1) {
        Some(i + 1)
    } else {
        None
    }
}

fn find_piece_end(s: &[char], i: usize) -> (r: Option<usize>)
    requires
        i < s@.len(),
    ensures
        text::position(r) == piece_end(s@, i as int),
        r matches Some(k) ==> i < k <= s@.len(),
{
    let n: usize = s.len();
    let c: char = s[i];
    proof {
        reveal_strlit("**");
        reveal_strlit("$$");
        reveal_strlit("\\(");
        reveal_strlit("\\)");
        lemma_piece_end(s@, i as int);
    }
    let rest: &[char] = slice_subrange(s, i, n);
    if c == '`' {
        return match find_closing(s, i + 1, c) {
            Some(k) => Some(k + 1),
            None => None,
        };
    }
    if c == '_' {
        if stands_mid_word(s, i) {
            return Some(i + 1);
        }
        return match find_closing(s, i + 1, c) {
            Some(k) => if stands_mid_word(s, k) {
                Some(i + 1)
            } else {
                Some(k + 1)
            },
            None => None,
        };
    }
    if c == '$' {
        assert("$$"@.is_prefix_of(rest@) == text::occurs_at(s@, "$$"@, i as int)) by {
            lemma_prefix_occurs(s@, "$$"@, i as int);
        }
        if text::starts_with(rest, "$$") {
            return match text::find_from(s, "$$", i + 2) {
                Some(k) => Some(k + 2),
                None => None,
            };
        }
        return match text::find_char_from(s, '$', i + 1) {
            Some(k) => Some(k + 1),
            None => None,
        };
    }
    if c == '*' {
        assert("**"@.is_prefix_of(rest@) == text::occurs_at(s@, "**"@, i as int)) by {
            lemma_prefix_occurs(s@, "**"@, i as int);
        }
        if text::starts_with(rest, "**") {
            return match text::find_from(s, "**", i + 2) {
                Some(k) => Some(k + 2),
                None => None,
            };
        }
        return match find_closing(s, i + 1, '*') {
            Some(k) => Some(k + 1),
            None => None,
        };
    }
    if c == '\\' {
        assert("\\("@.is_prefix_of(rest@) == text::occurs_at(s@, "\\("@, i as int)) by {
            lemma_prefix_occurs(s@, "\\("@, i as int);
        }
        if text::starts_with(rest, "\\(") {
            return match text::find_from(s, "\\)", i) {
                Some(k) => Some(k + 2),
                None => None,
            };
        }
        return find_command_piece_end(s, i);
    }
    Some(i + 1)
}

proof fn lemma_prefix_occurs(s: Seq<char>, pat: Seq<char>, i: int)
    requires
        0 <= i <= s.len(),
    ensures
        pat.is_prefix_of(s.skip(i)) == text::occurs_at(s, pat, i),
        s.skip(i) == s.subrange(i, s.len() as int),
{
    if i + pat.len() <= s.len() {
        assert(s.skip(i).subrange(0, pat.len() as int) =~= s.subrange(i, i + pat.len()));
    }
}

/// How far `line` can be shown from the offset `from` on: just before the first
/// inline span or command that may still be growing, or to the end.
pub fn safe_inline_boundary(line: &[char], from: usize) -> (r: usize)
    ensures
        r == boundary_from(line@, from as int),
        r <= line@.len(),
        from <= line@.len() ==> from <= r,
{
    let n: usize = line.len();
    let mut i: usize = from;
    while i < n
        invariant
            n == line@.len(),
            from <= i,
            from <= n ==> i <= n,
            boundary_from(line@, from as int) == boundary_from(line@, i as int),
        decreases n - i,
    {
        match find_piece_end(line, i) {
            Some(k) => {
                i = k;
            },
            None => {
                return i;
            },
        }
    }
    n
}

/// Whether a run of brace groups that is `depth` deep at `i` is complete: it
/// ends at a closing brace too many, or at the first other character once every
/// group is closed.
pub open spec fn groups_closed(s: Seq<char>, i: int, depth: int, seen_open: bool) -> bool
    decreases s.len() - i,
{
    if i < 0 || i >= s.len() {
        seen_open && depth == 0
    } else if s[i] == '{' {
        groups_closed(s, i + 1, depth + 1, true)
    } else if s[i] == '}' {
        depth < 1 || groups_closed(s, i + 1, depth - 1, seen_open)
    } else {
        (seen_open && depth == 0) || groups_closed(s, i + 1, depth, seen_open)
    }
}

/// Whether the run of brace groups at the start of `s` is fully balanced, so
/// that a command such as `\frac{a}{b}` is complete.
pub fn brace_groups_closed(s: &[char]) -> (r: bool)
    ensures
        r == groups_closed(s@, 0, 0, false),
{
    let n: usize = s.len();
    let mut depth: usize = 0;
    let mut seen_open: bool = false;
    let mut i: usize = 0;
    while i < n
        invariant
            n == s@.len(),
            depth <= i <= n,
            groups_closed(s@, 0, 0, false) == groups_closed(s@, i as int, depth as int, seen_open),
        decreases n - i,
    {
        if s[i] == '{' {
            depth = depth + 1;
            seen_open = true;
        } else if s[i] == '}' {
            if depth == 0 {
                return true;
            }
            depth = depth - 1;
        } else if seen_open && depth == 0 {
            return true;
        }
        i = i + 1;
    }
    seen_open && depth == 0
}

/// The length in bytes of the UTF-8 sequence that a leading byte starts; one for
/// a byte that starts none.
pub open spec fn lead_byte_width(b: u8) -> int {
    if 0xc0 <= b < 0xe0 {
        2
    } else if 0xe0 <= b < 0xf0 {
        3
    } else if 0xf0 <= b < 0xf8 {
        4
    } else {
        1
    }
}

/// The length in bytes of the UTF-8 sequence that starts with `first_byte`.
pub fn utf8_char_len(first_byte: u8) -> (r: usize)
    ensures
        r == lead_byte_width(first_byte),
{
    if 0xc0 <= first_byte && first_byte < 0xe0 {
        2
    } else if 0xe0 <= first_byte && first_byte < 0xf0 {
        3
    } else if 0xf0 <= first_byte && first_byte < 0xf8 {
        4
    } else {
        1
    }
}

/// Where a stream of answer text stands: the line so far, whether a code block
/// or a display-math block is open, the math gathered, whether the line has
/// begun to be shown, and how much of it has been.
pub struct StreamState {
    pub line: Seq<char>,
    pub in_code_block: bool,
    pub in_math_block: bool,
    pub math: Seq<char>,
    pub line_started: bool,
    pub emitted: int,
}

/// The state of a stream before any text.
pub open spec fn fresh_stream() -> StreamState {
    StreamState {
        line: Seq::empty(),
        in_code_block: false,
        in_math_block: false,
        math: Seq::empty(),
        line_started: false,
        emitted: 0,
    }
}

/// The state with a new line begun.
pub open spec fn next_line(st: StreamState) -> StreamState {
    StreamState { line: Seq::empty(), line_started: false, emitted: 0, ..st }
}

/// Display math on a line of its own.
pub open spec fn display_math(s: Seq<char>) -> Seq<char> {
    "    "@ + CYAN@ + unicode_of(text::trimmed(s)) + RESET@ + "\n"@
}

/// It is too early to tell what kind of line this is.
pub open spec fn undecided(t: Seq<char>) -> bool {
    !t.contains(' ') && vstd::utf8::encode_utf8(t).len() < 4 && !"``"@.is_prefix_of(t)
}

/// The line is of a kind that is shown as a whole, once it is complete.
pub open spec fn whole_line(t: Seq<char>) -> bool {
    "#"@.is_prefix_of(t) || "> "@.is_prefix_of(t) || "```"@.is_prefix_of(t) || "\\["@.is_prefix_of(t)
        || "$$"@.is_prefix_of(t)
}

/// Shows what is complete past the part of the line already shown.
pub open spec fn advanced(st: StreamState) -> (StreamState, Seq<char>) {
    let upto = boundary_from(st.line, st.emitted);
    if upto > st.emitted {
        (StreamState { emitted: upto, ..st }, inline_of(st.line.subrange(st.emitted, upto)))
    } else {
        (st, Seq::empty())
    }
}

/// Shows as much of the current line as can be shown now.
pub open spec fn partial(st: StreamState) -> (StreamState, Seq<char>) {
    if st.line_started {
        advanced(st)
    } else {
        let t = text::trimmed_start(st.line);
        if undecided(t) || whole_line(t) {
            (st, Seq::empty())
        } else {
            let (prefix, consumed) = prefix_of(st.line);
            let (next, shown) = advanced(
                StreamState { line_started: true, emitted: consumed, ..st },
            );
            (next, prefix + shown)
        }
    }
}

/// The current line, complete: block delimiters change the state, lines in a
/// block belong to it, and other lines are shown as far as they have not been.
pub open spec fn flushed(st: StreamState, newline: bool) -> (StreamState, Seq<char>) {
    let line = st.line;
    let t = text::trimmed_start(line);
    let next = next_line(st);
    if st.in_math_block {
        if t == "\\]"@ || t == "$$"@ {
            (
                StreamState { math: Seq::empty(), in_math_block: false, ..next },
                display_math(st.math),
            )
        } else {
            (StreamState { math: (st.math + line).push(' '), ..next }, Seq::empty())
        }
    } else if !st.in_code_block && (t == "\\["@ || t == "$$"@) {
        (StreamState { math: Seq::empty(), in_math_block: true, ..next }, Seq::empty())
    } else if !st.in_code_block && "\\["@.is_prefix_of(t) && "\\]"@.is_suffix_of(t.skip(2)) {
        (next, display_math(t.subrange(2, t.len() - 2)))
    } else if "```"@.is_prefix_of(t) {
        let lang = fence_language(t);
        (
            StreamState { in_code_block: !st.in_code_block, ..next },
            if !st.in_code_block && lang.len() > 0 {
                DIM@ + "┄┄ "@ + lang + " ┄┄"@ + RESET@ + "\n"@
            } else {
                DIM@ + "┄┄┄┄┄┄"@ + RESET@ + "\n"@
            },
        )
    } else if st.in_code_block {
        (next, DIM@ + "│"@ + RESET@ + " "@ + line + "\n"@)
    } else {
        let shown = if st.line_started {
            inline_of(line.skip(if st.emitted < line.len() {
                st.emitted
            } else {
                line.len() as int
            }))
        } else {
            line_of(line)
        };
        (next, shown + (if newline {
            "\n"@
        } else {
            Seq::empty()
        }))
    }
}

/// What follows the backticks of a fence.
pub open spec fn fence_language(t: Seq<char>) -> Seq<char>
    decreases t.len(),
{
    if t.len() > 0 && t[0] == '`' {
        fence_language(t.skip(1))
    } else {
        t
    }
}

/// The stream after one more character, and what is shown for it.
pub open spec fn fed(st: StreamState, ch: char) -> (StreamState, Seq<char>) {
    if ch == '\r' {
        (st, Seq::empty())
    } else if ch == '\n' {
        flushed(st, true)
    } else {
        let next = StreamState { line: st.line.push(ch), ..st };
        if st.in_code_block || st.in_math_block {
            (next, Seq::empty())
        } else {
            partial(next)
        }
    }
}

/// The stream after more text, and what is shown for it.
pub open spec fn fed_text(st: StreamState, s: Seq<char>) -> (StreamState, Seq<char>)
    decreases s.len(),
{
    if s.len() == 0 {
        (st, Seq::empty())
    } else {
        let (mid, shown) = fed_text(st, s.drop_last());
        let (end, more) = fed(mid, s.last());
        (end, shown + more)
    }
}

/// The stream at the end of the answer, and what is shown for what was still
/// held: the last line, and the math of a block that was not closed.
pub open spec fn finished(st: StreamState) -> (StreamState, Seq<char>) {
    let (end, shown) = flushed(st, false);
    let closed = StreamState {
        in_code_block: false,
        in_math_block: false,
        math: Seq::empty(),
        ..end
    };
    if end.in_math_block && text::trimmed(end.math).len() > 0 {
        (closed, shown + display_math(end.math))
    } else {
        (closed, shown)
    }
}

/// Renders an answer as it streams in. Plain prose is shown character by
/// character; inline spans are held until they close; headings, quotes, code
/// and display math are held until their line or block is complete.
pub struct MarkdownStream {
    line_buf: Vec<char>,
    in_code_block: bool,
    in_math_block: bool,
    math_buf: Vec<char>,
    line_started: bool,
    emitted_on_line: usize,
}

impl View for MarkdownStream {
    type V = StreamState;

    closed spec fn view(&self) -> StreamState {
        StreamState {
            line: self.line_buf@,
            in_code_block: self.in_code_block,
            in_math_block: self.in_math_block,
            math: self.math_buf@,
            line_started: self.line_started,
            emitted: self.emitted_on_line as int,
        }
    }
}

impl Default for MarkdownStream {
    fn default() -> (r: Self)
        ensures
            r@ == fresh_stream(),
    {
        MarkdownStream::new()
    }
}

impl MarkdownStream {
    /// A stream that has seen no text.
    pub fn new() -> (r: Self)
        ensures
            r@ == fresh_stream(),
    {
        MarkdownStream {
            line_buf: Vec::new(),
            in_code_block: false,
            in_math_block: false,
            math_buf: Vec::new(),
            line_started: false,
            emitted_on_line: 0,
        }
    }

    /// Takes a chunk of answer text and returns what is to be shown for it.
    pub fn push(&mut self, s: &str) -> (shown: String)
        ensures
            (final(self)@, shown@) == fed_text(old(self)@, s@),
    {
        let chars = text::chars_of(s);
        let mut out: Vec<char> = Vec::new();
        let mut i: usize = 0;
        while i < chars.len()
            invariant
                i <= chars@.len(),
                chars@ == s@,
                (self@, out@) == fed_text(old(self)@, s@.take(i as int)),
            decreases chars@.len() - i,
        {
            assert(s@.take(i + 1).drop_last() == s@.take(i as int));
            self.feed_char(chars[i], &mut out);
            i = i + 1;
        }
        assert(s@.take(i as int) == s@);
        text::string_of(out.as_slice())
    }

    /// Ends the answer and returns what is to be shown for the text still held.
    pub fn finish(&mut self) -> (shown: String)
        ensures
            (final(self)@, shown@) == finished(old(self)@),
    {
        let mut out: Vec<char> = Vec::new();
        self.flush_line(false, &mut out);
        if self.in_math_block && text::trim(self.math_buf.as_slice()).len() > 0 {
            push_display_math(&mut out, self.math_buf.as_slice());
        }
        self.in_code_block = false;
        self.in_math_block = false;
        self.math_buf = Vec::new();
        text::string_of(out.as_slice())
    }

    /// Takes one character; appends what is to be shown for it to `out`.
    pub fn feed_char(&mut self, ch: char, out: &mut Vec<char>)
        ensures
            final(self)@ == fed(old(self)@, ch).0,
            final(out)@ == old(out)@ + fed(old(self)@, ch).1,
    {
        if ch == '\r' {
            return;
        }
        if ch == '\n' {
            self.flush_line(true, out);
            return;
        }
        self.line_buf.push(ch);
        if self.in_code_block || self.in_math_block {
            return;
        }
        self.try_stream_partial(out);
    }

    fn try_stream_partial(&mut self, out: &mut Vec<char>)
        ensures
            final(self)@ == partial(old(self)@).0,
            final(out)@ == old(out)@ + partial(old(self)@).1,
    {
        let ghost before = out@;
        if !self.line_started {
            let t: &[char] = text::trim_start(self.line_buf.as_slice());
            if !text::contains_char(t, ' ') && text::utf8_shorter_than(t, 4) && !text::starts_with(
                t,
                "``",
            ) {
                return;
            }
            if text::starts_with(t, "#") || text::starts_with(t, "> ") || text::starts_with(
                t,
                "```",
            ) || text::starts_with(t, "\\[") || text::starts_with(t, "$$") {
                return;
            }
            let (prefix, consumed) = block_prefix(self.line_buf.as_slice());
            text::push_chars(out, prefix.as_slice());
            self.emitted_on_line = consumed;
            self.line_started = true;
        }
        let line: &[char] = self.line_buf.as_slice();
        let upto: usize = safe_inline_boundary(line, self.emitted_on_line);
        if upto > self.emitted_on_line {
            let shown = render_inline_fragment(slice_subrange(line, self.emitted_on_line, upto));
            text::push_chars(out, shown.as_slice());
            self.emitted_on_line = upto;
        }
        assert(out@ == before + partial(old(self)@).1);
    }

    fn flush_line(&mut self, newline: bool, out: &mut Vec<char>)
        ensures
            final(self)@ == flushed(old(self)@, newline).0,
            final(out)@ == old(out)@ + flushed(old(self)@, newline).1,
    {
        let ghost before = out@;
        let ghost st = self@;
        proof {
            reveal_strlit("\\[");
            reveal_strlit("\\]");
        }
        let mut line: Vec<char> = Vec::new();
        text::push_chars(&mut line, self.line_buf.as_slice());
        assert(line@ == st.line);
        self.line_buf = Vec::new();
        let started: bool = self.line_started;
        let emitted: usize = self.emitted_on_line;
        self.reset_line_state();
        let t: &[char] = text::trim_start(line.as_slice());

        if self.in_math_block {
            if text::is_text(t, "\\]") || text::is_text(t, "$$") {
                push_display_math(out, self.math_buf.as_slice());
                self.math_buf = Vec::new();
                self.in_math_block = false;
            } else {
                text::push_chars(&mut self.math_buf, line.as_slice());
                self.math_buf.push(' ');
            }
            return;
        }
        if !self.in_code_block && (text::is_text(t, "\\[") || text::is_text(t, "$$")) {
            self.in_math_block = true;
            self.math_buf = Vec::new();
            return;
        }
        if !self.in_code_block {
            if let Some(rest) = text::strip_prefix(t, "\\[") {
            if let Some(inner) = text::strip_suffix(rest, "\\]") {
                assert(inner@ == t@.subrange(2, t@.len() - 2));
                push_display_math(out, inner);
                return;
            }
            }
        }
        if text::starts_with(t, "```") {
            let lang = after_backticks(t);
            let opens: bool = !self.in_code_block;
            self.in_code_block = opens;
            if opens && lang.len() > 0 {
                text::push_text(out, DIM);
                text::push_text(out, "┄┄ ");
                text::push_chars(out, lang);
                text::push_text(out, " ┄┄");
            } else {
                text::push_text(out, DIM);
                text::push_text(out, "┄┄┄┄┄┄");
            }
            text::push_text(out, RESET);
            text::push_text(out, "\n");
            assert(out@ == before + flushed(st, newline).1);
            return;
        }
        if self.in_code_block {
            text::push_text(out, DIM);
            text::push_text(out, "│");
            text::push_text(out, RESET);
            text::push_text(out, " ");
            text::push_chars(out, line.as_slice());
            text::push_text(out, "\n");
            assert(out@ == before + flushed(st, newline).1);
            return;
        }
        if started {
            let n: usize = line.len();
            let at: usize = if emitted < n {
                emitted
            } else {
                n
            };
            let tail: &[char] = slice_subrange(line.as_slice(), at, n);
            assert(tail@ == line@.skip(at as int));
            let shown = render_inline_fragment(tail);
            text::push_chars(out, shown.as_slice());
        } else {
            let shown = line_chars(line.as_slice());
            text::push_chars(out, shown.as_slice());
        }
        if newline {
            text::push_text(out, "\n");
        }
        assert(out@ == before + flushed(st, newline).1);
    }

    fn reset_line_state(&mut self)
        ensures
            final(self)@ == (StreamState { line_started: false, emitted: 0, ..old(self)@ }),
    {
        self.line_started = false;
        self.emitted_on_line = 0;
    }
}

fn push_display_math(out: &mut Vec<char>, s: &[char])
    ensures
        final(out)@ == old(out)@ + display_math(s@),
{
    let ghost before = out@;
    let shown = unicode_chars(text::trim(s));
    text::push_text(out, "    ");
    text::push_text(out, CYAN);
    text::push_chars(out, shown.as_slice());
    text::push_text(out, RESET);
    text::push_text(out, "\n");
    assert(out@ == before + display_math(s@));
}

fn after_backticks(t: &[char]) -> (r: &[char])
    ensures
        r@ == fence_language(t@),
{
    let n: usize = t.len();
    let mut i: usize = 0;
    assert(t@.skip(0) == t@);
    while i < n && t[i] == '`'
        invariant
            n == t@.len(),
            i <= n,
            fence_language(t@) == fence_language(t@.skip(i as int)),
        decreases n - i,
    {
        assert(t@.skip(i as int).skip(1) == t@.skip(i + 1));
        i = i + 1;
    }
    slice_subrange(t, i, n)
}

} // verus!

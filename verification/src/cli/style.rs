//! Terminal styling: the one source of ANSI styling for the command line.
use vstd::prelude::*;
use vstd::string::StringExecFns;

verus! {

pub const RESET: &'static str = "\x1b[0m";

pub const BOLD: &'static str = "\x1b[1m";

pub const DIM: &'static str = "\x1b[2m";

pub const ITALIC: &'static str = "\x1b[3m";

pub const RED: &'static str = "\x1b[31m";

pub const GREEN: &'static str = "\x1b[32m";

pub const YELLOW: &'static str = "\x1b[33m";

pub const MAGENTA: &'static str = "\x1b[35m";

pub const CYAN: &'static str = "\x1b[36m";

/// The frames of the spinner shown while something slow is awaited.
pub const SPINNER_FRAMES: [&'static str; 10] = ["⠋", "⠙", "⠹", "⠸", "⠼", "⠴", "⠦", "⠧", "⠇", "⠏"];

/// `s` between a style code and the reset code.
pub open spec fn styled(style: Seq<char>, s: Seq<char>) -> Seq<char> {
    style + s + RESET@
}

fn wrap(style: &str, s: &str) -> (r: String)
    ensures
        r@ == styled(style@, s@),
{
    let mut out = String::new();
    out.append(style);
    out.append(s);
    out.append(RESET);
    out
}

/// Wraps `s` green, for success and healthy states.
pub fn ok(s: &str) -> (r: String)
    ensures
        r@ == styled(GREEN@, s@),
{
    wrap(GREEN, s)
}

/// Wraps `s` yellow, for warnings.
pub fn warn(s: &str) -> (r: String)
    ensures
        r@ == styled(YELLOW@, s@),
{
    wrap(YELLOW, s)
}

/// Wraps `s` red, for errors and missing requirements.
pub fn err(s: &str) -> (r: String)
    ensures
        r@ == styled(RED@, s@),
{
    wrap(RED, s)
}

/// Wraps `s` dim, for secondary text.
pub fn dim(s: &str) -> (r: String)
    ensures
        r@ == styled(DIM@, s@),
{
    wrap(DIM, s)
}

/// Wraps `s` cyan.
pub fn cyan(s: &str) -> (r: String)
    ensures
        r@ == styled(CYAN@, s@),
{
    wrap(CYAN, s)
}

/// `n` spaces.
pub open spec fn spaces(n: nat) -> Seq<char> {
    Seq::new(n, |i: int| ' ')
}

/// How many spaces bring `visible_len` columns up to `width`; none when there
/// are enough already.
pub open spec fn padding(visible_len: nat, width: nat) -> nat {
    if width > visible_len {
        (width - visible_len) as nat
    } else {
        0
    }
}

/// Pads a value, colored or not, to a fixed visible width, given how many
/// columns of it are visible.
pub fn pad_colored(colored: &str, visible_len: usize, width: usize) -> (r: String)
    ensures
        r@ == colored@ + spaces(padding(visible_len as nat, width as nat)),
{
    let pad: usize = if width > visible_len {
        width - visible_len
    } else {
        0
    };
    let mut out = String::new();
    out.append(colored);
    let mut i: usize = 0;
    while i < pad
        invariant
            i <= pad,
            out@ == colored@ + spaces(i as nat),
        decreases pad - i,
    {
        out.push(' ');
        i = i + 1;
        assert(spaces(i as nat) == spaces((i - 1) as nat).push(' '));
    }
    out
}

/// The spinner's line at tick `i`: it returns to the line's start, then shows
/// the frame and the label, dim.
pub fn spinner_line(label: &str, i: usize) -> (r: String)
    ensures
        r@ == seq!['\r'] + styled(
            DIM@,
            SPINNER_FRAMES@[(i % 10) as int]@ + seq![' '] + label@,
        ),
{
    let mut out = String::new();
    out.push('\r');
    out.append(DIM);
    out.append(SPINNER_FRAMES[i % 10]);
    out.push(' ');
    out.append(label);
    out.append(RESET);
    assert(out@ == seq!['\r'] + styled(
        DIM@,
        SPINNER_FRAMES@[(i % 10) as int]@ + seq![' '] + label@,
    ));
    out
}

/// What erases the current terminal line.
pub fn clear_line() -> (r: &'static str)
    ensures
        r@ == "\r\x1b[K"@,
{
    "\r\x1b[K"
}

} // verus!

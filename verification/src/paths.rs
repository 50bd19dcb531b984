//! Paths as text.
use crate::text;
use vstd::prelude::*;
use vstd::slice::slice_subrange;
use vstd::string::StringExecFns;

verus! {

/// A character that stands between the components of a path: a slash, and on Windows
/// a backslash too.
pub open spec fn is_separator(c: char, windows: bool) -> bool {
    c == '/' || (windows && c == '\\')
}

/// Where the component of a Windows path that goes on at `i` ends.
pub open spec fn component_end(s: Seq<char>, i: int) -> int
    decreases s.len() - i,
{
    if i < 0 || i >= s.len() {
        s.len() as int
    } else if is_separator(s[i], true) {
        i
    } else {
        component_end(s, i + 1)
    }
}

/// A Windows path begins with the letter of a drive, such as `C:`.
pub open spec fn has_drive(s: Seq<char>) -> bool {
    s.len() >= 2 && ('a' <= s[0] <= 'z' || 'A' <= s[0] <= 'Z') && s[1] == ':'
}

/// The length of the prefix of a Windows path: a drive, or a share such as
/// `\\server\share`. None is zero long.
pub open spec fn prefix_len(s: Seq<char>) -> int {
    if has_drive(s) {
        2
    } else if s.len() >= 2 && is_separator(s[0], true) && is_separator(s[1], true) {
        let server = component_end(s, 2);
        let share = component_end(s, server + 1);
        if server == 2 || server >= s.len() || share == server + 1 {
            0
        } else {
            share
        }
    } else {
        0
    }
}

/// A path does not go on from a directory: it begins with a separator, or on Windows
/// with a prefix.
pub open spec fn stands_alone(s: Seq<char>, windows: bool) -> bool {
    (s.len() > 0 && is_separator(s[0], windows)) || (windows && prefix_len(s) > 0)
}

/// What a directory puts before a name that goes on from it: the directory, and a
/// separator where it does not end in one. A bare drive takes none.
pub open spec fn front_of(dir: Seq<char>, windows: bool) -> Seq<char> {
    if dir.len() == 0 || is_separator(dir.last(), windows) || (windows && has_drive(dir)
        && dir.len() == 2) {
        dir
    } else if windows {
        dir.push('\\')
    } else {
        dir.push('/')
    }
}

/// A name joined to a directory. An absolute name stands for itself; on Windows one
/// with a root but no prefix keeps the prefix of the directory.
/// A directory in the verbatim form, behind `\\?\`, is taken like a share: what the
/// name says of `.` and `..` is kept as it is.
pub open spec fn joined(dir: Seq<char>, name: Seq<char>, windows: bool) -> Seq<char> {
    if !stands_alone(name, windows) {
        front_of(dir, windows) + name
    } else if windows && prefix_len(name) == 0 {
        dir.take(prefix_len(dir)) + name
    } else {
        name
    }
}

proof fn lemma_component_end(s: Seq<char>, i: int)
    requires
        0 <= i <= s.len(),
    ensures
        i <= component_end(s, i) <= s.len(),
    decreases s.len() - i,
{
    if i < s.len() {
        lemma_component_end(s, i + 1);
    }
}

/// A prefix lies in its path.
pub proof fn lemma_prefix_len(s: Seq<char>)
    ensures
        0 <= prefix_len(s) <= s.len(),
{
    if s.len() >= 2 {
        lemma_component_end(s, 2);
        let server = component_end(s, 2);
        if server < s.len() {
            lemma_component_end(s, server + 1);
        }
    }
}

fn find_component_end(s: &[char], from: usize) -> (r: usize)
    requires
        from <= s@.len(),
    ensures
        r == component_end(s@, from as int),
        from <= r <= s@.len(),
{
    let mut i: usize = from;
    while i < s.len()
        invariant
            from <= i <= s@.len(),
            component_end(s@, from as int) == component_end(s@, i as int),
        decreases s@.len() - i,
    {
        if s[i] == '/' || s[i] == '\\' {
            return i;
        }
        i = i + 1;
    }
    i
}

fn starts_with_drive(s: &[char]) -> (r: bool)
    ensures
        r == has_drive(s@),
{
    s.len() >= 2 && (('a' <= s[0] && s[0] <= 'z') || ('A' <= s[0] && s[0] <= 'Z')) && s[1] == ':'
}

fn find_prefix(s: &[char]) -> (r: usize)
    ensures
        r == prefix_len(s@),
        r <= s@.len(),
{
    if starts_with_drive(s) {
        return 2;
    }
    if s.len() >= 2 && (s[0] == '/' || s[0] == '\\') && (s[1] == '/' || s[1] == '\\') {
        let server: usize = find_component_end(s, 2);
        if server == 2 || server >= s.len() {
            return 0;
        }
        let share: usize = find_component_end(s, server + 1);
        if share == server + 1 {
            return 0;
        }
        return share;
    }
    0
}

/// Joins a name to a directory, as paths are written on Windows or elsewhere.
pub fn join(dir: &str, name: &str, windows: bool) -> (r: String)
    ensures
        r@ == joined(dir@, name@, windows),
{
    let d = text::chars_of(dir);
    let n = text::chars_of(name);
    let rooted: bool = n.len() > 0 && (n[0] == '/' || (windows && n[0] == '\\'));
    let prefix: usize = if windows {
        find_prefix(n.as_slice())
    } else {
        0
    };
    if prefix > 0 || (rooted && !windows) {
        return String::from_str(name);
    }
    let mut out: Vec<char> = Vec::new();
    if rooted {
        let kept: usize = find_prefix(d.as_slice());
        text::push_chars(&mut out, slice_subrange(d.as_slice(), 0, kept));
        text::push_chars(&mut out, n.as_slice());
        assert(out@ =~= joined(dir@, name@, windows));
        return text::string_of(out.as_slice());
    }
    text::push_chars(&mut out, d.as_slice());
    if !(d.len() == 0 || d[d.len() - 1] == '/' || (windows && (d[d.len() - 1] == '\\' || (
    starts_with_drive(d.as_slice()) && d.len() == 2)))) {
        if windows {
            out.push('\\');
        } else {
            out.push('/');
        }
    }
    assert(out@ =~= front_of(dir@, windows));
    text::push_chars(&mut out, n.as_slice());
    text::string_of(out.as_slice())
}

/// A relative name joined to a directory lies below it.
pub proof fn law_relative_name_stays_below(dir: Seq<char>, name: Seq<char>, windows: bool)
    requires
        !stands_alone(name, windows),
    ensures
        dir.is_prefix_of(joined(dir, name, windows)),
        name.is_suffix_of(joined(dir, name, windows)),
{
    let j = joined(dir, name, windows);
    assert(j.subrange(0, dir.len() as int) =~= dir);
    assert(j.subrange(j.len() - name.len(), j.len() as int) =~= name);
}

/// What stands behind a text without separators of its own ends no component in it.
proof fn lemma_component_end_behind(stem: Seq<char>, x: Seq<char>, i: int)
    requires
        0 <= i <= stem.len(),
        forall|k: int| 0 <= k < x.len() ==> !is_separator(#[trigger] x[k], true),
    ensures
        component_end(stem + x, i) == if component_end(stem, i) < stem.len() {
            component_end(stem, i)
        } else {
            (stem + x).len() as int
        },
    decreases stem.len() - i,
{
    let s = stem + x;
    if i < stem.len() {
        assert(s[i] == stem[i]);
        lemma_component_end_behind(stem, x, i + 1);
    } else {
        lemma_no_component_end(s, i);
    }
}

proof fn lemma_no_component_end(s: Seq<char>, i: int)
    requires
        0 <= i <= s.len(),
        forall|k: int| i <= k < s.len() ==> !is_separator(#[trigger] s[k], true),
    ensures
        component_end(s, i) == s.len(),
    decreases s.len() - i,
{
    if i < s.len() {
        lemma_no_component_end(s, i + 1);
    }
}

/// Names that differ only behind a dash, with no separator there, are joined alike.
proof fn lemma_same_prefix(stem: Seq<char>, x: Seq<char>, y: Seq<char>)
    requires
        x.len() > 0 && x[0] == '-',
        y.len() > 0 && y[0] == '-',
        forall|k: int| 0 <= k < x.len() ==> !is_separator(#[trigger] x[k], true),
        forall|k: int| 0 <= k < y.len() ==> !is_separator(#[trigger] y[k], true),
    ensures
        (prefix_len(stem + x) > 0) == (prefix_len(stem + y) > 0),
{
    let a = stem + x;
    let b = stem + y;
    lemma_prefix_len(a);
    lemma_prefix_len(b);
    if stem.len() >= 2 {
        assert(a[0] == stem[0] && a[1] == stem[1]);
        assert(b[0] == stem[0] && b[1] == stem[1]);
        lemma_component_end(stem, 2);
        lemma_component_end_behind(stem, x, 2);
        lemma_component_end_behind(stem, y, 2);
        let server = component_end(stem, 2);
        if server < stem.len() {
            lemma_component_end(stem, server + 1);
            lemma_component_end_behind(stem, x, server + 1);
            lemma_component_end_behind(stem, y, server + 1);
        }
    } else if stem.len() == 1 {
        assert(a[1] == x[0] && b[1] == y[0]);
    } else {
        assert(a[0] == x[0] && b[0] == y[0]);
    }
}

/// Different endings behind the same stem give different paths, whatever directory
/// they are joined to.
pub proof fn lemma_join_tells_names_apart(
    dir: Seq<char>,
    stem: Seq<char>,
    x: Seq<char>,
    y: Seq<char>,
    windows: bool,
)
    requires
        stem + x != stem + y,
        x.len() > 0 && x[0] == '-',
        y.len() > 0 && y[0] == '-',
        forall|k: int| 0 <= k < x.len() ==> !is_separator(#[trigger] x[k], true),
        forall|k: int| 0 <= k < y.len() ==> !is_separator(#[trigger] y[k], true),
    ensures
        joined(dir, stem + x, windows) != joined(dir, stem + y, windows),
{
    let a = stem + x;
    let b = stem + y;
    lemma_same_prefix(stem, x, y);
    lemma_prefix_len(a);
    lemma_prefix_len(b);
    lemma_prefix_len(dir);
    assert(a[0] == b[0]);
    let front = if !stands_alone(a, windows) {
        front_of(dir, windows)
    } else if windows && prefix_len(a) == 0 {
        dir.take(prefix_len(dir))
    } else {
        Seq::<char>::empty()
    };
    assert(joined(dir, a, windows) =~= front + a);
    assert(joined(dir, b, windows) =~= front + b);
    if front + a == front + b {
        assert((front + a).skip(front.len() as int) =~= a);
        assert((front + b).skip(front.len() as int) =~= b);
    }
}

/// A name with a drive of its own is kept whatever directory it is joined to.
pub proof fn law_drive_is_kept(dir: Seq<char>, name: Seq<char>)
    requires
        has_drive(name),
    ensures
        joined(dir, name, true) == name,
{
}

/// A character of a path, where `separator` stands between components: next to a
/// backslash, a slash is a separator too.
pub open spec fn unified_char(c: char, separator: char) -> char {
    if c == '/' && separator == '\\' {
        separator
    } else {
        c
    }
}

/// A path with one kind of separator in it.
pub open spec fn unified(path: Seq<char>, separator: char) -> Seq<char> {
    path.map_values(|c: char| unified_char(c, separator))
}

/// A path in canonical form is a directory or lies below it. `separator` stands
/// between the components of both.
pub open spec fn lies_below(path: Seq<char>, dir: Seq<char>, separator: char) -> bool {
    let p = unified(path, separator);
    let d = unified(dir, separator);
    &&& d.is_prefix_of(p)
    &&& p.len() == d.len() || (d.len() > 0 && d.last() == separator) || p[d.len() as int]
        == separator
}

fn unify(path: &str, separator: char) -> (r: Vec<char>)
    ensures
        r@ == unified(path@, separator),
{
    let chars = text::chars_of(path);
    let mut out: Vec<char> = Vec::new();
    let mut i: usize = 0;
    while i < chars.len()
        invariant
            i <= chars@.len(),
            chars@ == path@,
            out@ == unified(path@.take(i as int), separator),
        decreases chars@.len() - i,
    {
        let c: char = chars[i];
        if c == '/' && separator == '\\' {
            out.push(separator);
        } else {
            out.push(c);
        }
        i = i + 1;
        assert(out@ == unified(path@.take(i as int), separator));
    }
    assert(path@.take(i as int) == path@);
    out
}

/// Whether a path in canonical form is a directory or lies below it.
pub fn is_below(path: &str, dir: &str, separator: char) -> (r: bool)
    ensures
        r == lies_below(path@, dir@, separator),
{
    let p = unify(path, separator);
    let d = unify(dir, separator);
    if d.len() > p.len() {
        return false;
    }
    let mut i: usize = 0;
    while i < d.len()
        invariant
            i <= d@.len() <= p@.len(),
            d@ == unified(dir@, separator),
            p@ == unified(path@, separator),
            d@.take(i as int) == p@.take(i as int),
        decreases d@.len() - i,
    {
        if d[i] != p[i] {
            assert(d@.is_prefix_of(p@) ==> d@[i as int] == p@.subrange(0, d@.len() as int)[i as int]);
            return false;
        }
        i = i + 1;
        assert(d@.take(i as int) == p@.take(i as int));
    }
    assert(d@.take(i as int) == d@);
    p.len() == d.len() || (d.len() > 0 && d[d.len() - 1] == separator) || p[d.len()] == separator
}

/// A relative name joined to a directory lies below it, by the separator of the
/// system.
pub proof fn law_joined_name_lies_below(dir: Seq<char>, name: Seq<char>, windows: bool)
    requires
        dir.len() > 0,
        !stands_alone(name, windows),
        !(windows && has_drive(dir) && dir.len() == 2),
    ensures
        lies_below(
            joined(dir, name, windows),
            dir,
            if windows {
                '\\'
            } else {
                '/'
            },
        ),
{
    let separator = if windows {
        '\\'
    } else {
        '/'
    };
    let p = unified(joined(dir, name, windows), separator);
    let d = unified(dir, separator);
    assert(p.subrange(0, d.len() as int) =~= d);
}

/// Which separators two paths are written with does not matter where the separator
/// is a backslash.
pub proof fn law_both_separators_count(path: Seq<char>, other: Seq<char>, dir: Seq<char>)
    requires
        path.len() == other.len(),
        forall|i: int|
            0 <= i < path.len() ==> #[trigger] path[i] == other[i] || ((path[i] == '/' || path[i]
                == '\\') && (other[i] == '/' || other[i] == '\\')),
    ensures
        lies_below(path, dir, '\\') == lies_below(other, dir, '\\'),
        lies_below(dir, path, '\\') == lies_below(dir, other, '\\'),
{
    assert(unified(path, '\\') =~= unified(other, '\\'));
}

} // verus!

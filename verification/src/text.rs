//! Text as sequences of characters: the search, trimming and replacement
//! operations that the parsers and renderers of this crate are built from.
//!
//! Every executable function works on a slice of `char` and is specified by a
//! spec function over `Seq<char>`, the view of `str` and `String`.
use vstd::prelude::*;
use vstd::slice::slice_subrange;

verus! {

broadcast use vstd::string::group_string_axioms;

/// `String::push` appends the given `char` to the end of the string.
pub assume_specification[ String::push ](s: &mut String, c: char)
    ensures
        final(s)@ == old(s)@.push(c),
;

/// The characters of a string.
pub fn chars_of(s: &str) -> (out: Vec<char>)
    ensures
        out@ == s@,
{
    let mut out: Vec<char> = Vec::new();
    for c in it: s.chars()
        invariant
            it.seq() == s@,
            out@ == it.seq().take(it.index() as int),
    {
        out.push(c);
    }
    out
}

/// The string made of the given characters.
pub fn string_of(v: &[char]) -> (out: String)
    ensures
        out@ == v@,
{
    let mut out = String::new();
    let mut i: usize = 0;
    while i < v.len()
        invariant
            i <= v.len(),
            out@ == v@.take(i as int),
        decreases v.len() - i,
    {
        out.push(v[i]);
        i = i + 1;
    }
    assert(v@.take(i as int) == v@);
    out
}

// ---------------------------------------------------------------- searching

/// `pat` stands in `s` at position `i`.
pub open spec fn occurs_at(s: Seq<char>, pat: Seq<char>, i: int) -> bool {
    0 <= i && i + pat.len() <= s.len() && s.subrange(i, i + pat.len()) == pat
}

/// The first position at or after `i` where `pat` stands in `s`.
pub open spec fn occurrence_from(s: Seq<char>, pat: Seq<char>, i: int) -> Option<int>
    decreases s.len() + 1 - i,
{
    if i < 0 || i + pat.len() > s.len() {
        None
    } else if occurs_at(s, pat, i) {
        Some(i)
    } else {
        occurrence_from(s, pat, i + 1)
    }
}

/// `pat` stands somewhere in `s`.
pub open spec fn contains_text(s: Seq<char>, pat: Seq<char>) -> bool {
    exists|i: int| occurs_at(s, pat, i)
}

/// The first position at or after `i` where the character `c` stands in `s`.
pub open spec fn char_from(s: Seq<char>, c: char, i: int) -> Option<int>
    decreases s.len() - i,
{
    if i < 0 || i >= s.len() {
        None
    } else if s[i] == c {
        Some(i)
    } else {
        char_from(s, c, i + 1)
    }
}

/// An executable position as a mathematical one.
pub open spec fn position(r: Option<usize>) -> Option<int> {
    match r {
        Some(i) => Some(i as int),
        None => None,
    }
}

/// The recursive search returns the least position at which the pattern stands.
pub proof fn lemma_occurrence_from(s: Seq<char>, pat: Seq<char>, i: int)
    requires
        0 <= i,
    ensures
        match occurrence_from(s, pat, i) {
            Some(k) => i <= k && occurs_at(s, pat, k) && forall|j: int|
                i <= j < k ==> !occurs_at(s, pat, j),
            None => forall|j: int| i <= j ==> !occurs_at(s, pat, j),
        },
    decreases s.len() + 1 - i,
{
    if i + pat.len() <= s.len() && !occurs_at(s, pat, i) {
        lemma_occurrence_from(s, pat, i + 1);
    }
}

/// A pattern stands in a text exactly when the search from the start finds it.
pub proof fn lemma_contains_text(s: Seq<char>, pat: Seq<char>)
    ensures
        contains_text(s, pat) <==> occurrence_from(s, pat, 0) is Some,
{
    lemma_occurrence_from(s, pat, 0);
}

/// The recursive search for a character returns its least position.
pub proof fn lemma_char_from(s: Seq<char>, c: char, i: int)
    requires
        0 <= i,
    ensures
        match char_from(s, c, i) {
            Some(k) => i <= k < s.len() && s[k] == c && forall|j: int| i <= j < k ==> s[j] != c,
            None => forall|j: int| i <= j < s.len() ==> s[j] != c,
        },
    decreases s.len() - i,
{
    if i < s.len() && s[i] != c {
        lemma_char_from(s, c, i + 1);
    }
}

/// Whether two character slices are equal.
pub fn same_chars(a: &[char], b: &[char]) -> (r: bool)
    ensures
        r == (a@ == b@),
{
    if a.len() != b.len() {
        return false;
    }
    let mut i: usize = 0;
    while i < a.len()
        invariant
            i <= a.len(),
            a.len() == b.len(),
            forall|j: int| 0 <= j < i ==> a@[j] == b@[j],
        decreases a.len() - i,
    {
        if a[i] != b[i] {
            return false;
        }
        i = i + 1;
    }
    assert(a@ =~= b@);
    true
}

/// Whether the characters spell the given text.
pub fn is_text(s: &[char], t: &str) -> (r: bool)
    ensures
        r == (s@ == t@),
{
    let t_chars = chars_of(t);
    same_chars(s, t_chars.as_slice())
}

/// Whether two strings hold the same text.
pub fn same_text(a: &str, b: &str) -> (r: bool)
    ensures
        r == (a@ == b@),
{
    let a_chars = chars_of(a);
    is_text(a_chars.as_slice(), b)
}

fn matches_at(s: &[char], pat: &[char], i: usize) -> (r: bool)
    requires
        i + pat@.len() <= s@.len(),
    ensures
        r == occurs_at(s@, pat@, i as int),
{
    let n: usize = s.len();
    let mut j: usize = 0;
    while j < pat.len()
        invariant
            j <= pat.len(),
            n == s@.len(),
            i + pat@.len() <= n,
            forall|k: int| 0 <= k < j ==> s@[i + k] == pat@[k],
        decreases pat.len() - j,
    {
        if s[i + j] != pat[j] {
            assert(s@.subrange(i as int, i + pat@.len())[j as int] != pat@[j as int]);
            return false;
        }
        j = j + 1;
    }
    assert(s@.subrange(i as int, i + pat@.len()) =~= pat@);
    true
}

/// Finds the first occurrence of `pat` at or after `from`.
pub fn find_from(s: &[char], pat: &str, from: usize) -> (r: Option<usize>)
    requires
        from <= s@.len(),
    ensures
        position(r) == occurrence_from(s@, pat@, from as int),
        r matches Some(i) ==> from <= i && i + pat@.len() <= s@.len() && occurs_at(s@, pat@, i as int),
{
    let pat_chars = chars_of(pat);
    if pat_chars.len() > s.len() {
        return None;
    }
    let last: usize = s.len() - pat_chars.len();
    let mut i: usize = from;
    while i <= last
        invariant
            pat_chars@ == pat@,
            last == s@.len() - pat@.len(),
            from <= i,
            i <= s@.len(),
            occurrence_from(s@, pat@, from as int) == occurrence_from(s@, pat@, i as int),
        decreases s@.len() - i,
    {
        if matches_at(s, pat_chars.as_slice(), i) {
            return Some(i);
        }
        if i == last {
            return None;
        }
        i = i + 1;
    }
    None
}

/// Whether `pat` stands somewhere in `s`.
pub fn contains(s: &[char], pat: &str) -> (r: bool)
    ensures
        r == contains_text(s@, pat@),
{
    proof {
        lemma_contains_text(s@, pat@);
    }
    find_from(s, pat, 0).is_some()
}

/// Finds the first `c` at or after `from`.
pub fn find_char_from(s: &[char], c: char, from: usize) -> (r: Option<usize>)
    requires
        from <= s@.len(),
    ensures
        position(r) == char_from(s@, c, from as int),
        r matches Some(i) ==> from <= i < s@.len() && s@[i as int] == c,
{
    let mut i: usize = from;
    while i < s.len()
        invariant
            from <= i <= s@.len(),
            char_from(s@, c, from as int) == char_from(s@, c, i as int),
        decreases s@.len() - i,
    {
        if s[i] == c {
            return Some(i);
        }
        i = i + 1;
    }
    None
}

/// Whether the character `c` stands somewhere in `s`.
pub fn contains_char(s: &[char], c: char) -> (r: bool)
    ensures
        r == s@.contains(c),
{
    proof {
        lemma_char_from(s@, c, 0);
    }
    find_char_from(s, c, 0).is_some()
}

/// Whether `s` begins with `pat`.
pub fn starts_with(s: &[char], pat: &str) -> (r: bool)
    ensures
        r == pat@.is_prefix_of(s@),
{
    let pat_chars = chars_of(pat);
    if pat_chars.len() > s.len() {
        return false;
    }
    assert(s@.subrange(0, pat@.len() as int) == s@.take(pat@.len() as int));
    matches_at(s, pat_chars.as_slice(), 0)
}

/// Whether `s` ends with `pat`.
pub fn ends_with(s: &[char], pat: &str) -> (r: bool)
    ensures
        r == pat@.is_suffix_of(s@),
{
    let pat_chars = chars_of(pat);
    if pat_chars.len() > s.len() {
        return false;
    }
    let at: usize = s.len() - pat_chars.len();
    matches_at(s, pat_chars.as_slice(), at)
}

/// The text after the prefix `pat`, where `s` begins with it.
pub fn strip_prefix<'a>(s: &'a [char], pat: &str) -> (r: Option<&'a [char]>)
    ensures
        match r {
            Some(t) => pat@.is_prefix_of(s@) && t@ == s@.skip(pat@.len() as int),
            None => !pat@.is_prefix_of(s@),
        },
{
    let n: usize = chars_of(pat).len();
    if starts_with(s, pat) {
        Some(slice_subrange(s, n, s.len()))
    } else {
        None
    }
}

/// The text before the suffix `pat`, where `s` ends with it.
pub fn strip_suffix<'a>(s: &'a [char], pat: &str) -> (r: Option<&'a [char]>)
    ensures
        match r {
            Some(t) => pat@.is_suffix_of(s@) && t@ == s@.take(s@.len() - pat@.len()),
            None => !pat@.is_suffix_of(s@),
        },
{
    let n: usize = chars_of(pat).len();
    if ends_with(s, pat) {
        Some(slice_subrange(s, 0, s.len() - n))
    } else {
        None
    }
}

/// Whether the UTF-8 encoding of `s` is shorter than `bound` bytes.
pub fn utf8_shorter_than(s: &[char], bound: usize) -> (r: bool)
    ensures
        r == (vstd::utf8::encode_utf8(s@).len() < bound),
{
    let mut left: usize = bound;
    let mut i: usize = 0;
    assert(s@.skip(0) == s@);
    while i < s.len()
        invariant
            i <= s@.len(),
            left <= bound,
            vstd::utf8::encode_utf8(s@).len() == bound - left + vstd::utf8::encode_utf8(
                s@.skip(i as int),
            ).len(),
        decreases s@.len() - i,
    {
        assert(s@.skip(i as int).drop_first() == s@.skip(i + 1));
        let u: u32 = s[i] as u32;
        proof {
            vstd::utf8::char_is_scalar(s@[i as int]);
        }
        let width: usize = if u < 0x80 {
            1
        } else if u < 0x800 {
            2
        } else if u < 0x10000 {
            3
        } else {
            4
        };
        assert(vstd::utf8::encode_scalar(u).len() == width);
        if left < width {
            return false;
        }
        left = left - width;
        i = i + 1;
    }
    left > 0
}

// ----------------------------------------------------------------- trimming

/// The characters with the Unicode `White_Space` property.
pub open spec fn is_space(c: char) -> bool {
    let u = c as u32;
    ||| 0x09 <= u <= 0x0d
    ||| u == 0x20
    ||| u == 0x85
    ||| u == 0xa0
    ||| u == 0x1680
    ||| 0x2000 <= u <= 0x200a
    ||| u == 0x2028
    ||| u == 0x2029
    ||| u == 0x202f
    ||| u == 0x205f
    ||| u == 0x3000
}

/// Whether `c` has the Unicode `White_Space` property.
pub fn is_whitespace(c: char) -> (r: bool)
    ensures
        r == is_space(c),
{
    let u: u32 = c as u32;
    (0x09 <= u && u <= 0x0d) || u == 0x20 || u == 0x85 || u == 0xa0 || u == 0x1680 || (0x2000 <= u
        && u <= 0x200a) || u == 0x2028 || u == 0x2029 || u == 0x202f || u == 0x205f || u == 0x3000
}

/// How many whitespace characters `s` begins with.
pub open spec fn leading_spaces(s: Seq<char>) -> int
    decreases s.len(),
{
    if s.len() > 0 && is_space(s[0]) {
        1 + leading_spaces(s.skip(1))
    } else {
        0
    }
}

/// `s` without the whitespace it begins with.
pub open spec fn trimmed_start(s: Seq<char>) -> Seq<char> {
    s.skip(leading_spaces(s))
}

/// `s` without the whitespace it ends with.
pub open spec fn trimmed_end(s: Seq<char>) -> Seq<char>
    decreases s.len(),
{
    if s.len() > 0 && is_space(s.last()) {
        trimmed_end(s.drop_last())
    } else {
        s
    }
}

/// `s` without the whitespace around it.
pub open spec fn trimmed(s: Seq<char>) -> Seq<char> {
    trimmed_end(trimmed_start(s))
}

/// The whitespace that `s` begins with ends at the first other character.
pub proof fn lemma_leading_spaces(s: Seq<char>)
    ensures
        0 <= leading_spaces(s) <= s.len(),
        forall|i: int| 0 <= i < leading_spaces(s) ==> is_space(s[i]),
        leading_spaces(s) < s.len() ==> !is_space(s[leading_spaces(s)]),
    decreases s.len(),
{
    if s.len() > 0 && is_space(s[0]) {
        let t = s.skip(1);
        lemma_leading_spaces(t);
        assert forall|i: int| 0 <= i < leading_spaces(s) implies is_space(s[i]) by {
            if i > 0 {
                assert(t[i - 1] == s[i]);
            }
        }
        if leading_spaces(s) < s.len() {
            assert(t[leading_spaces(t)] == s[leading_spaces(s)]);
        }
    }
}

/// Where the whitespace that `s` begins with ends is where `leading_spaces` says.
pub proof fn lemma_leading_spaces_unique(s: Seq<char>, n: int)
    requires
        0 <= n <= s.len(),
        forall|i: int| 0 <= i < n ==> is_space(s[i]),
        n < s.len() ==> !is_space(s[n]),
    ensures
        leading_spaces(s) == n,
{
    lemma_leading_spaces(s);
    let k = leading_spaces(s);
    if k < n {
        assert(is_space(s[k]));
    }
    if n < k {
        assert(is_space(s[n]));
    }
}

/// Trimming the end takes whitespace off, and all of it.
pub proof fn lemma_trimmed_end(s: Seq<char>)
    ensures
        trimmed_end(s).is_prefix_of(s),
        forall|i: int| trimmed_end(s).len() <= i < s.len() ==> is_space(s[i]),
        trimmed_end(s).len() > 0 ==> !is_space(trimmed_end(s).last()),
    decreases s.len(),
{
    if s.len() > 0 && is_space(s.last()) {
        lemma_trimmed_end(s.drop_last());
        let t = trimmed_end(s.drop_last());
        assert(t =~= s.take(t.len() as int));
        assert forall|i: int| t.len() <= i < s.len() implies is_space(s[i]) by {
            if i < s.len() - 1 {
                assert(s.drop_last()[i] == s[i]);
            }
        }
    }
}

/// The number of whitespace characters that `s` begins with.
pub fn count_leading_spaces(s: &[char]) -> (n: usize)
    ensures
        n == leading_spaces(s@),
        n <= s@.len(),
{
    let mut i: usize = 0;
    while i < s.len() && is_whitespace(s[i])
        invariant
            i <= s@.len(),
            forall|j: int| 0 <= j < i ==> is_space(s@[j]),
        decreases s@.len() - i,
    {
        i = i + 1;
    }
    proof {
        lemma_leading_spaces_unique(s@, i as int);
    }
    i
}

/// `s` without the whitespace it begins with.
pub fn trim_start(s: &[char]) -> (r: &[char])
    ensures
        r@ == trimmed_start(s@),
        r@.len() <= s@.len(),
{
    let n: usize = count_leading_spaces(s);
    slice_subrange(s, n, s.len())
}

/// `s` without the whitespace it ends with.
pub fn trim_end(s: &[char]) -> (r: &[char])
    ensures
        r@ == trimmed_end(s@),
        r@.len() <= s@.len(),
{
    let mut n: usize = s.len();
    assert(s@.take(n as int) == s@);
    while n > 0 && is_whitespace(s[n - 1])
        invariant
            n <= s@.len(),
            trimmed_end(s@) == trimmed_end(s@.take(n as int)),
        decreases n,
    {
        assert(s@.take(n as int).drop_last() == s@.take(n - 1));
        n = n - 1;
    }
    slice_subrange(s, 0, n)
}

/// `s` without the whitespace around it.
pub fn trim(s: &[char]) -> (r: &[char])
    ensures
        r@ == trimmed(s@),
        r@.len() <= s@.len(),
{
    trim_end(trim_start(s))
}

// -------------------------------------------------------------- replacement

/// `s` with every occurrence of `pat` replaced by `with`, found left to right
/// without overlap.
pub open spec fn replaced(s: Seq<char>, pat: Seq<char>, with: Seq<char>) -> Seq<char>
    decreases s.len(),
{
    if pat.len() == 0 {
        s
    } else {
        match occurrence_from(s, pat, 0) {
            Some(i) => if 0 <= i && i + pat.len() <= s.len() {
                s.take(i) + with + replaced(s.skip(i + pat.len()), pat, with)
            } else {
                s
            },
            None => s,
        }
    }
}

/// `s` with each character that is in `set` replaced by `with`.
pub open spec fn replaced_chars(s: Seq<char>, set: Seq<char>, with: Seq<char>) -> Seq<char>
    decreases s.len(),
{
    if s.len() == 0 {
        s
    } else {
        replaced_chars(s.drop_last(), set, with) + (if set.contains(s.last()) {
            with
        } else {
            seq![s.last()]
        })
    }
}

/// A character of the set that the replacement does not hold is gone.
pub proof fn lemma_replaced_chars_free(s: Seq<char>, set: Seq<char>, with: Seq<char>, c: char)
    requires
        set.contains(c),
        !with.contains(c),
    ensures
        !replaced_chars(s, set, with).contains(c),
    decreases s.len(),
{
    if s.len() > 0 {
        lemma_replaced_chars_free(s.drop_last(), set, with, c);
        let head = replaced_chars(s.drop_last(), set, with);
        let tail = if set.contains(s.last()) {
            with
        } else {
            seq![s.last()]
        };
        let all = head + tail;
        assert forall|i: int| 0 <= i < all.len() implies all[i] != c by {
            if i < head.len() {
                assert(head.contains(head[i]));
            } else {
                assert(tail.contains(tail[i - head.len()]));
            }
        }
    }
}

/// A character that neither the text nor the replacement holds does not appear.
pub proof fn lemma_replaced_chars_keeps_out(s: Seq<char>, set: Seq<char>, with: Seq<char>, c: char)
    requires
        !s.contains(c),
        !with.contains(c),
    ensures
        !replaced_chars(s, set, with).contains(c),
    decreases s.len(),
{
    if s.len() > 0 {
        let front = s.drop_last();
        assert forall|i: int| 0 <= i < front.len() implies front[i] != c by {
            assert(s.contains(s[i]));
        }
        lemma_replaced_chars_keeps_out(front, set, with, c);
        assert(s.contains(s.last()));
        let head = replaced_chars(front, set, with);
        let tail = if set.contains(s.last()) {
            with
        } else {
            seq![s.last()]
        };
        let all = head + tail;
        assert forall|i: int| 0 <= i < all.len() implies all[i] != c by {
            if i < head.len() {
                assert(head.contains(head[i]));
            } else {
                assert(tail.contains(tail[i - head.len()]));
            }
        }
    }
}

/// Appends characters to a string.
pub fn append_chars(out: &mut String, s: &[char])
    ensures
        final(out)@ == old(out)@ + s@,
{
    let mut i: usize = 0;
    while i < s.len()
        invariant
            i <= s@.len(),
            out@ == old(out)@ + s@.take(i as int),
        decreases s@.len() - i,
    {
        out.push(s[i]);
        i = i + 1;
        assert(s@.take(i as int) == s@.take(i - 1).push(s@[i - 1]));
    }
    assert(s@.take(i as int) == s@);
}

/// Appends characters to a character vector.
pub fn push_chars(out: &mut Vec<char>, s: &[char])
    ensures
        final(out)@ == old(out)@ + s@,
{
    let mut i: usize = 0;
    while i < s.len()
        invariant
            i <= s@.len(),
            out@ == old(out)@ + s@.take(i as int),
        decreases s@.len() - i,
    {
        out.push(s[i]);
        i = i + 1;
        assert(s@.take(i as int) == s@.take(i - 1).push(s@[i - 1]));
    }
    assert(s@.take(i as int) == s@);
}

/// Appends a text to a character vector.
pub fn push_text(out: &mut Vec<char>, s: &str)
    ensures
        final(out)@ == old(out)@ + s@,
{
    let chars = chars_of(s);
    push_chars(out, chars.as_slice());
}

/// Replaces every occurrence of `pat`, left to right without overlap.
pub fn replace_all(s: &[char], pat: &str, with: &str) -> (out: Vec<char>)
    requires
        pat@.len() > 0,
    ensures
        out@ == replaced(s@, pat@, with@),
{
    let mut out: Vec<char> = Vec::new();
    let mut rest: &[char] = s;
    loop
        invariant
            pat@.len() > 0,
            out@ + replaced(rest@, pat@, with@) == replaced(s@, pat@, with@),
        decreases rest@.len(),
    {
        let i: usize = match find_from(rest, pat, 0) {
            Some(i) => i,
            None => {
                push_chars(&mut out, rest);
                return out;
            },
        };
        let ghost before = out@;
        let n: usize = chars_of(pat).len();
        push_chars(&mut out, slice_subrange(rest, 0, i));
        push_text(&mut out, with);
        let end: usize = rest.len();
        let next: &[char] = slice_subrange(rest, i + n, end);
        assert(out@ + replaced(next@, pat@, with@) == before + (rest@.take(i as int) + with@
            + replaced(next@, pat@, with@)));
        rest = next;
    }
}

/// Replaces each character of `set` by `with`.
pub fn replace_chars(s: &[char], set: &[char], with: &str) -> (out: Vec<char>)
    ensures
        out@ == replaced_chars(s@, set@, with@),
{
    let mut out: Vec<char> = Vec::new();
    let mut i: usize = 0;
    while i < s.len()
        invariant
            i <= s@.len(),
            out@ == replaced_chars(s@.take(i as int), set@, with@),
        decreases s@.len() - i,
    {
        assert(s@.take(i + 1).drop_last() == s@.take(i as int));
        if contains_char(set, s[i]) {
            push_text(&mut out, with);
        } else {
            out.push(s[i]);
        }
        i = i + 1;
    }
    assert(s@.take(i as int) == s@);
    out
}

// --------------------------------------------------------------------- case

/// An ASCII letter in upper case; any other character as it is.
pub open spec fn ascii_upper_char(c: char) -> char {
    if 'a' <= c <= 'z' {
        ((c as u32) - 32) as char
    } else {
        c
    }
}

/// An ASCII letter in lower case; any other character as it is.
pub open spec fn ascii_lower_char(c: char) -> char {
    if 'A' <= c <= 'Z' {
        ((c as u32) + 32) as char
    } else {
        c
    }
}

/// `s` with its ASCII letters in upper case.
pub open spec fn ascii_upper(s: Seq<char>) -> Seq<char> {
    s.map_values(|c: char| ascii_upper_char(c))
}

/// `s` with its ASCII letters in lower case.
pub open spec fn ascii_lower(s: Seq<char>) -> Seq<char> {
    s.map_values(|c: char| ascii_lower_char(c))
}

/// Every character is ASCII.
pub open spec fn is_ascii_text(s: Seq<char>) -> bool {
    forall|i: int| 0 <= i < s.len() ==> #[trigger] s[i] <= '\x7f'
}

/// The upper case form of a text under the Unicode case mapping.
pub uninterp spec fn unicode_upper(s: Seq<char>) -> Seq<char>;

/// The lower case form of a text under the Unicode case mapping.
pub uninterp spec fn unicode_lower(s: Seq<char>) -> Seq<char>;

/// `str::to_uppercase` returns the upper case form of the text under the Unicode
/// case mapping, which depends on the text alone. On ASCII text the mapping is
/// the one of the ASCII letters.
pub assume_specification[ str::to_uppercase ](s: &str) -> (r: String)
    ensures
        r@ == unicode_upper(s@),
        is_ascii_text(s@) ==> r@ == ascii_upper(s@),
;

/// `str::to_lowercase` returns the lower case form of the text under the Unicode
/// case mapping, which depends on the text alone. On ASCII text the mapping is
/// the one of the ASCII letters.
pub assume_specification[ str::to_lowercase ](s: &str) -> (r: String)
    ensures
        r@ == unicode_lower(s@),
        is_ascii_text(s@) ==> r@ == ascii_lower(s@),
;

/// A text in upper case.
pub open spec fn uppercase_of(s: Seq<char>) -> Seq<char> {
    if is_ascii_text(s) {
        ascii_upper(s)
    } else {
        unicode_upper(s)
    }
}

/// A text in lower case.
pub open spec fn lowercase_of(s: Seq<char>) -> Seq<char> {
    if is_ascii_text(s) {
        ascii_lower(s)
    } else {
        unicode_lower(s)
    }
}

/// `c` is a letter or a number under Unicode.
pub uninterp spec fn unicode_alphanumeric(c: char) -> bool;

/// `char::is_alphanumeric` tells whether the character is alphabetic or numeric
/// under Unicode, which depends on the character alone. Of the ASCII characters
/// those are the letters and the digits.
pub assume_specification[ char::is_alphanumeric ](c: char) -> (r: bool)
    ensures
        r == unicode_alphanumeric(c),
        (c as u32) < 0x80 ==> r == is_ascii_word(c),
;

/// An ASCII letter or digit.
pub open spec fn is_ascii_word(c: char) -> bool {
    'a' <= c <= 'z' || 'A' <= c <= 'Z' || '0' <= c <= '9'
}

/// A letter or a number.
pub open spec fn is_word(c: char) -> bool {
    if (c as u32) < 0x80 {
        is_ascii_word(c)
    } else {
        unicode_alphanumeric(c)
    }
}

/// Lower-cases the ASCII letters of `s`.
pub fn to_ascii_lowercase(s: &[char]) -> (out: Vec<char>)
    ensures
        out@ == ascii_lower(s@),
{
    let mut out: Vec<char> = Vec::new();
    let mut i: usize = 0;
    while i < s.len()
        invariant
            i <= s@.len(),
            out@ == ascii_lower(s@).take(i as int),
        decreases s@.len() - i,
    {
        out.push(ascii_lower_of(s[i]));
        i = i + 1;
        assert(ascii_lower(s@).take(i as int) == ascii_lower(s@).take(i - 1).push(
            ascii_lower(s@)[i - 1],
        ));
    }
    assert(ascii_lower(s@).take(i as int) == ascii_lower(s@));
    out
}

fn ascii_lower_of(c: char) -> (r: char)
    ensures
        r == ascii_lower_char(c),
{
    if 'A' <= c && c <= 'Z' {
        ((c as u8) + 32u8) as char
    } else {
        c
    }
}

// ---------------------------------------------------------------- splitting

/// A vector of texts as a sequence of texts.
pub open spec fn texts(v: Seq<Vec<char>>) -> Seq<Seq<char>> {
    v.map_values(|x: Vec<char>| x@)
}

/// A vector of strings as a sequence of texts.
pub open spec fn string_texts(v: Seq<String>) -> Seq<Seq<char>> {
    v.map_values(|x: String| x@)
}

/// `s` without a carriage return at its end.
pub open spec fn without_cr(s: Seq<char>) -> Seq<char> {
    if s.len() > 0 && s.last() == '\r' {
        s.drop_last()
    } else {
        s
    }
}

/// The lines of a text. A line ends at `\n` or `\r\n`; the last may have no end.
pub open spec fn lines_of(s: Seq<char>) -> Seq<Seq<char>>
    decreases s.len(),
{
    if s.len() == 0 {
        Seq::empty()
    } else {
        match char_from(s, '\n', 0) {
            Some(i) => if 0 <= i < s.len() {
                seq![without_cr(s.take(i))] + lines_of(s.skip(i + 1))
            } else {
                Seq::empty()
            },
            None => seq![s],
        }
    }
}

/// Splits a text into its lines.
pub fn split_lines(s: &[char]) -> (out: Vec<Vec<char>>)
    ensures
        texts(out@) == lines_of(s@),
{
    let mut out: Vec<Vec<char>> = Vec::new();
    let mut rest: &[char] = s;
    while rest.len() > 0
        invariant
            texts(out@) + lines_of(rest@) == lines_of(s@),
        decreases rest@.len(),
    {
        let ghost before = texts(out@);
        let n: usize = rest.len();
        let mut line: Vec<char> = Vec::new();
        match find_char_from(rest, '\n', 0) {
            Some(i) => {
                let end: usize = if i > 0 && rest[i - 1] == '\r' {
                    i - 1
                } else {
                    i
                };
                push_chars(&mut line, slice_subrange(rest, 0, end));
                assert(line@ == without_cr(rest@.take(i as int)));
                let next: &[char] = slice_subrange(rest, i + 1, n);
                assert(next@ == rest@.skip(i + 1));
                let ghost shown = line@;
                out.push(line);
                assert(texts(out@) == before.push(shown));
                assert(texts(out@) + lines_of(next@) == before + (seq![shown] + lines_of(next@)));
                rest = next;
            },
            None => {
                push_chars(&mut line, rest);
                assert(line@ == rest@);
                let ghost shown = line@;
                out.push(line);
                assert(texts(out@) == before.push(shown));
                assert(texts(out@) == before + seq![shown]);
                return out;
            },
        }
    }
    assert(lines_of(rest@) == Seq::<Seq<char>>::empty());
    out
}

/// The first whitespace character at or after `i`.
pub open spec fn space_from(s: Seq<char>, i: int) -> Option<int>
    decreases s.len() - i,
{
    if i < 0 || i >= s.len() {
        None
    } else if is_space(s[i]) {
        Some(i)
    } else {
        space_from(s, i + 1)
    }
}

/// The text before the first whitespace character and the text after it.
pub open spec fn split_at_space(s: Seq<char>) -> Option<(Seq<char>, Seq<char>)> {
    match space_from(s, 0) {
        Some(i) => Some((s.take(i), s.skip(i + 1))),
        None => None,
    }
}

/// Splits a text at its first whitespace character.
pub fn split_once_space(s: &[char]) -> (r: Option<(&[char], &[char])>)
    ensures
        match r {
            Some((a, b)) => split_at_space(s@) == Some((a@, b@)),
            None => split_at_space(s@) is None,
        },
{
    let n: usize = s.len();
    let mut i: usize = 0;
    while i < n
        invariant
            n == s@.len(),
            i <= n,
            space_from(s@, 0) == space_from(s@, i as int),
        decreases n - i,
    {
        if is_whitespace(s[i]) {
            return Some((slice_subrange(s, 0, i), slice_subrange(s, i + 1, n)));
        }
        i = i + 1;
    }
    None
}

// --------------------------------------------------------------------- parts

/// `t` is a contiguous part of `s`.
pub open spec fn is_part(t: Seq<char>, s: Seq<char>) -> bool {
    contains_text(s, t)
}

/// A subrange is a part.
pub proof fn lemma_subrange_is_part(s: Seq<char>, a: int, b: int)
    requires
        0 <= a <= b <= s.len(),
    ensures
        is_part(s.subrange(a, b), s),
{
    assert(occurs_at(s, s.subrange(a, b), a));
}

/// A part of a part is a part.
pub proof fn lemma_part_transitive(t: Seq<char>, s: Seq<char>, u: Seq<char>)
    requires
        is_part(t, s),
        is_part(s, u),
    ensures
        is_part(t, u),
{
    let i = choose|i: int| occurs_at(s, t, i);
    let j = choose|j: int| occurs_at(u, s, j);
    assert(u.subrange(i + j, i + j + t.len()) =~= t) by {
        assert forall|k: int| 0 <= k < t.len() implies u[i + j + k] == t[k] by {
            assert(s.subrange(i, i + t.len())[k] == t[k]);
            assert(u.subrange(j, j + s.len())[i + k] == s[i + k]);
        }
    }
    assert(occurs_at(u, t, i + j));
}

/// A prefix of a part is a part.
pub proof fn lemma_prefix_of_part(p: Seq<char>, t: Seq<char>, s: Seq<char>)
    requires
        p.is_prefix_of(t),
        is_part(t, s),
    ensures
        is_part(p, s),
{
    lemma_subrange_is_part(t, 0, p.len() as int);
    assert(t.subrange(0, p.len() as int) =~= p);
    lemma_part_transitive(p, t, s);
}

/// What trimming leaves is a part.
pub proof fn lemma_trims_are_parts(s: Seq<char>)
    ensures
        is_part(trimmed_start(s), s),
        is_part(trimmed_end(s), s),
        is_part(trimmed(s), s),
{
    lemma_leading_spaces(s);
    lemma_subrange_is_part(s, leading_spaces(s), s.len() as int);
    assert(s.subrange(leading_spaces(s), s.len() as int) =~= trimmed_start(s));
    lemma_trimmed_end(s);
    lemma_subrange_is_part(s, 0, s.len() as int);
    assert(s.subrange(0, s.len() as int) =~= s);
    lemma_prefix_of_part(trimmed_end(s), s, s);
    let t = trimmed_start(s);
    lemma_trimmed_end(t);
    lemma_prefix_of_part(trimmed_end(t), t, s);
}

/// The first whitespace character is at a position of the text.
pub proof fn lemma_space_from(s: Seq<char>, i: int)
    requires
        0 <= i,
    ensures
        match space_from(s, i) {
            Some(k) => i <= k < s.len() && is_space(s[k]) && forall|j: int|
                i <= j < k ==> !is_space(s[j]),
            None => forall|j: int| i <= j < s.len() ==> !is_space(s[j]),
        },
    decreases s.len() - i,
{
    if i < s.len() && !is_space(s[i]) {
        lemma_space_from(s, i + 1);
    }
}

/// The two sides of a split at whitespace are parts.
pub proof fn lemma_split_at_space(s: Seq<char>)
    ensures
        split_at_space(s) matches Some((a, b)) ==> is_part(a, s) && is_part(b, s),
{
    lemma_space_from(s, 0);
    if let Some(i) = space_from(s, 0) {
        lemma_subrange_is_part(s, 0, i);
        lemma_subrange_is_part(s, i + 1, s.len() as int);
        assert(s.subrange(0, i) =~= s.take(i));
        assert(s.subrange(i + 1, s.len() as int) =~= s.skip(i + 1));
    }
}

/// Every line of a text is a part of it.
#[verifier::rlimit(40)]
pub proof fn lemma_lines_are_parts(s: Seq<char>)
    ensures
        forall|i: int|
            0 <= i < lines_of(s).len() ==> is_part(#[trigger] lines_of(s)[i], s),
    decreases s.len(),
{
    if s.len() > 0 {
        lemma_char_from(s, '\n', 0);
        lemma_subrange_is_part(s, 0, s.len() as int);
        assert(s.subrange(0, s.len() as int) =~= s);
        if let Some(k) = char_from(s, '\n', 0) {
            let rest = s.skip(k + 1);
            let first = without_cr(s.take(k));
            assert(lines_of(s) == seq![first] + lines_of(rest));
            lemma_lines_are_parts(rest);
            lemma_subrange_is_part(s, k + 1, s.len() as int);
            assert(s.subrange(k + 1, s.len() as int) =~= rest);
            lemma_subrange_is_part(s, 0, first.len() as int);
            assert(s.subrange(0, first.len() as int) =~= first);
            assert forall|i: int| 0 <= i < lines_of(s).len() implies is_part(
                #[trigger] lines_of(s)[i],
                s,
            ) by {
                if i > 0 {
                    assert(lines_of(s)[i] == lines_of(rest)[i - 1]);
                    lemma_part_transitive(lines_of(rest)[i - 1], rest, s);
                } else {
                    assert(lines_of(s)[i] == first);
                }
            }
        } else {
            assert forall|i: int| 0 <= i < lines_of(s).len() implies is_part(
                #[trigger] lines_of(s)[i],
                s,
            ) by {
                assert(lines_of(s)[i] == s);
            }
        }
    }
}

/// A text that may be absent.
pub open spec fn text_of(s: Option<&str>) -> Option<Seq<char>> {
    match s {
        Some(t) => Some(t@),
        None => None,
    }
}

// -------------------------------------------------------------------- quoting

/// A path as `{:?}` writes it: between double quotes, with escapes.
pub uninterp spec fn path_debug_of(s: Seq<char>) -> Seq<char>;

/// `format!` with `{:?}` of a `std::path::Path`, which depends on the text of the path
/// alone.
#[verifier::external_body]
pub(crate) fn path_debug(s: &str) -> (r: String)
    ensures
        r@ == path_debug_of(s@),
{
    format!("{:?}", std::path::Path::new(s))
}

} // verus!

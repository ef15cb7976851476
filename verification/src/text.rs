//! Text scanning over sequences of characters: white space, lines, tokens,
//! substrings and replacement, each with a mathematical definition on
//! `Seq<char>` and an executable counterpart on `&[char]`.

use vstd::prelude::*;
use vstd::slice::*;
use vstd::string::StringExecFns;

verus! {

/// `String::push` of the standard library: appends one character to the end
/// of the string and leaves the characters before it unchanged.
pub assume_specification[ String::push ](s: &mut String, ch: char)
    ensures
        final(s)@ == old(s)@.push(ch),
;

// ---------------------------------------------------------------------------
// Characters
// ---------------------------------------------------------------------------

/// Whether `c` has the Unicode property `White_Space`.
pub open spec fn is_whitespace(c: char) -> bool {
    let u = c as u32;
    ||| 0x09 <= u <= 0x0D
    ||| u == 0x20
    ||| u == 0x85
    ||| u == 0xA0
    ||| u == 0x1680
    ||| 0x2000 <= u <= 0x200A
    ||| u == 0x2028
    ||| u == 0x2029
    ||| u == 0x202F
    ||| u == 0x205F
    ||| u == 0x3000
}

/// Tests a character for white space.
pub fn char_is_whitespace(c: char) -> (b: bool)
    ensures
        b == is_whitespace(c),
{
    let u: u32 = c as u32;
    (0x09 <= u && u <= 0x0D) || u == 0x20 || u == 0x85 || u == 0xA0 || u == 0x1680 || (0x2000 <= u
        && u <= 0x200A) || u == 0x2028 || u == 0x2029 || u == 0x202F || u == 0x205F || u == 0x3000
}

// ---------------------------------------------------------------------------
// Strings and character vectors
// ---------------------------------------------------------------------------

/// The characters of a string, in order.
pub fn to_chars(s: &str) -> (out: Vec<char>)
    ensures
        out@ == s@,
{
    let mut out: Vec<char> = Vec::new();
    for c in it: s.chars()
        invariant
            out@ == it.seq().take(it.index() as int),
            it.seq() == s@,
    {
        out.push(c);
    }
    out
}

/// Appends the characters of `v` to `out`.
pub fn push_chars(out: &mut String, v: &[char])
    ensures
        final(out)@ == old(out)@ + v@,
{
    let mut i: usize = 0;
    while i < v.len()
        invariant
            i <= v.len(),
            out@ == old(out)@ + v@.take(i as int),
        decreases v.len() - i,
    {
        out.push(v[i]);
        i += 1;
    }
}

/// The string made of the characters of `v`.
pub fn from_chars(v: &[char]) -> (out: String)
    ensures
        out@ == v@,
{
    let mut out = String::new();
    push_chars(&mut out, v);
    out
}

/// The views of a vector of character vectors.
pub open spec fn views(v: Seq<Vec<char>>) -> Seq<Seq<char>> {
    Seq::new(v.len(), |i: int| v[i]@)
}

// ---------------------------------------------------------------------------
// First occurrence of a character
// ---------------------------------------------------------------------------

/// The index of the first `c` in `s`, or the length of `s` if there is none.
pub open spec fn find_char(s: Seq<char>, c: char) -> nat
    decreases s.len(),
{
    if s.len() == 0 || s[0] == c {
        0
    } else {
        1 + find_char(s.skip(1), c)
    }
}

/// `find_char` is the one index that holds `c` with no `c` before it.
pub proof fn lemma_find_char(s: Seq<char>, c: char, n: int)
    requires
        0 <= n <= s.len(),
        forall|i: int| 0 <= i < n ==> s[i] != c,
        n < s.len() ==> s[n] == c,
    ensures
        find_char(s, c) == n,
    decreases n,
{
    if n > 0 {
        lemma_find_char(s.skip(1), c, n - 1);
    }
}

/// Finds the first `c` at or after `from`.
pub fn index_of(s: &[char], from: usize, c: char) -> (n: usize)
    requires
        from <= s.len(),
    ensures
        from <= n <= s.len(),
        n == from + find_char(s@.skip(from as int), c),
{
    let mut i: usize = from;
    while i < s.len() && s[i] != c
        invariant
            from <= i <= s.len(),
            forall|j: int| from <= j < i ==> s@[j] != c,
        decreases s.len() - i,
    {
        i += 1;
    }
    proof {
        lemma_find_char(s@.skip(from as int), c, i - from);
    }
    i
}

// ---------------------------------------------------------------------------
// Runs of white space and of other characters
// ---------------------------------------------------------------------------

/// The number of characters at the start of `s` that are white space
/// (`white`) or that are not (`!white`).
pub open spec fn run_length(s: Seq<char>, white: bool) -> nat
    decreases s.len(),
{
    if s.len() > 0 && is_whitespace(s[0]) == white {
        1 + run_length(s.skip(1), white)
    } else {
        0
    }
}

/// `run_length` is the one index that ends a run.
pub proof fn lemma_run_length(s: Seq<char>, white: bool, n: int)
    requires
        0 <= n <= s.len(),
        forall|i: int| 0 <= i < n ==> is_whitespace(s[i]) == white,
        n < s.len() ==> is_whitespace(s[n]) != white,
    ensures
        run_length(s, white) == n,
    decreases n,
{
    if n > 0 {
        lemma_run_length(s.skip(1), white, n - 1);
    }
}

/// What `run_length` returns: an index within bounds, past a run of the
/// given kind, at a character of the other kind unless it is the length.
pub proof fn lemma_run_length_bounds(s: Seq<char>, white: bool)
    ensures
        run_length(s, white) <= s.len(),
        forall|i: int| 0 <= i < run_length(s, white) ==> is_whitespace(s[i]) == white,
        run_length(s, white) < s.len() ==> is_whitespace(s[run_length(s, white) as int]) != white,
    decreases s.len(),
{
    if s.len() > 0 && is_whitespace(s[0]) == white {
        let t = s.skip(1);
        lemma_run_length_bounds(t, white);
        assert forall|i: int| 0 <= i < run_length(s, white) implies is_whitespace(s[i])
            == white by {
            if i > 0 {
                assert(s[i] == t[i - 1]);
            }
        }
        if run_length(s, white) < s.len() {
            assert(s[run_length(s, white) as int] == t[run_length(t, white) as int]);
        }
    }
}

/// The end of the run that starts at `from`.
pub fn run_end(s: &[char], from: usize, white: bool) -> (n: usize)
    requires
        from <= s.len(),
    ensures
        from <= n <= s.len(),
        n == from + run_length(s@.skip(from as int), white),
{
    let mut i: usize = from;
    while i < s.len() && char_is_whitespace(s[i]) == white
        invariant
            from <= i <= s.len(),
            forall|j: int| from <= j < i ==> is_whitespace(s@[j]) == white,
        decreases s.len() - i,
    {
        i += 1;
    }
    proof {
        lemma_run_length(s@.skip(from as int), white, i - from);
    }
    i
}

// ---------------------------------------------------------------------------
// Trimming
// ---------------------------------------------------------------------------

/// `s` without the white space at its start.
pub open spec fn trimmed_start(s: Seq<char>) -> Seq<char> {
    s.skip(run_length(s, true) as int)
}

/// `s` without the white space at its end.
pub open spec fn trimmed_end(s: Seq<char>) -> Seq<char>
    decreases s.len(),
{
    if s.len() > 0 && is_whitespace(s.last()) {
        trimmed_end(s.drop_last())
    } else {
        s
    }
}

/// `s` without the white space at its start and at its end.
pub open spec fn trimmed(s: Seq<char>) -> Seq<char> {
    trimmed_end(trimmed_start(s))
}

/// `trimmed_end` keeps the characters before the trailing white space.
pub proof fn lemma_trimmed_end(s: Seq<char>, n: int)
    requires
        0 <= n <= s.len(),
        forall|i: int| n <= i < s.len() ==> is_whitespace(s[i]),
        n > 0 ==> !is_whitespace(s[n - 1]),
    ensures
        trimmed_end(s) == s.take(n),
    decreases s.len() - n,
{
    if n < s.len() {
        lemma_trimmed_end(s.drop_last(), n);
        assert(s.drop_last().take(n) == s.take(n));
    } else {
        assert(s.take(n) == s);
    }
}

/// A trimmed sequence neither starts nor ends with white space.
pub proof fn lemma_trimmed_ends(s: Seq<char>)
    ensures
        trimmed(s).len() > 0 ==> !is_whitespace(trimmed(s)[0]) && !is_whitespace(
            trimmed(s).last(),
        ),
        trimmed(s).len() <= s.len(),
{
    lemma_run_length_bounds(s, true);
    let t = trimmed_start(s);
    lemma_trimmed_end_shape(t);
}

/// `trimmed_end` is a prefix that, unless empty, ends with a character that
/// is not white space.
pub proof fn lemma_trimmed_end_shape(s: Seq<char>)
    ensures
        trimmed_end(s).len() <= s.len(),
        trimmed_end(s) == s.take(trimmed_end(s).len() as int),
        trimmed_end(s).len() > 0 ==> !is_whitespace(trimmed_end(s).last()),
    decreases s.len(),
{
    if s.len() > 0 && is_whitespace(s.last()) {
        let d = s.drop_last();
        lemma_trimmed_end_shape(d);
        assert(d.take(trimmed_end(d).len() as int) == s.take(trimmed_end(d).len() as int));
    } else {
        assert(s.take(s.len() as int) == s);
    }
}

/// Trims white space from the start.
pub fn trim_start<'a>(s: &'a [char]) -> (out: &'a [char])
    ensures
        out@ == trimmed_start(s@),
{
    let a = run_end(s, 0, true);
    assert(s@.skip(0) == s@);
    assert(s@.skip(a as int) == s@.subrange(a as int, s.len() as int));
    slice_subrange(s, a, s.len())
}

/// Trims white space from both ends.
pub fn trim<'a>(s: &'a [char]) -> (out: &'a [char])
    ensures
        out@ == trimmed(s@),
{
    let a = run_end(s, 0, true);
    let mut b: usize = s.len();
    while b > a && char_is_whitespace(s[b - 1])
        invariant
            a <= b <= s.len(),
            forall|j: int| b <= j < s.len() ==> is_whitespace(s@[j]),
        decreases b,
    {
        b -= 1;
    }
    proof {
        assert(s@.skip(0) == s@);
        let t = s@.skip(a as int);
        assert(t == trimmed_start(s@));
        if a < s.len() {
            lemma_run_length_bounds(s@, true);
        }
        lemma_trimmed_end(t, b - a);
        assert(t.take(b - a) == s@.subrange(a as int, b as int));
    }
    slice_subrange(s, a, b)
}

// ---------------------------------------------------------------------------
// Lines
// ---------------------------------------------------------------------------

/// `l` without a carriage return at its end.
pub open spec fn without_cr(l: Seq<char>) -> Seq<char> {
    if l.len() > 0 && l.last() == '\r' {
        l.drop_last()
    } else {
        l
    }
}

/// The lines of `s`. A line ends at a line feed, or at a carriage return
/// directly followed by a line feed; neither belongs to the line. What
/// follows the last line feed is a line of its own unless it is empty.
pub open spec fn lines_of(s: Seq<char>) -> Seq<Seq<char>>
    decreases s.len(),
{
    if s.len() == 0 {
        Seq::empty()
    } else {
        let n = find_char(s, '\n');
        if n >= s.len() {
            seq![s]
        } else {
            seq![without_cr(s.take(n as int))] + lines_of(s.skip(n as int + 1))
        }
    }
}

/// The lines of `s`, each trimmed.
pub open spec fn trimmed_lines_of(s: Seq<char>) -> Seq<Seq<char>> {
    lines_of(s).map_values(|l: Seq<char>| trimmed(l))
}

/// Splits `s` into its lines.
pub fn split_lines(s: &[char]) -> (out: Vec<Vec<char>>)
    ensures
        views(out@) == lines_of(s@),
{
    let mut out: Vec<Vec<char>> = Vec::new();
    let mut pos: usize = 0;
    let ghost mut done: Seq<Seq<char>> = Seq::empty();
    assert(s@.skip(0) == s@);
    while pos < s.len()
        invariant
            pos <= s.len(),
            lines_of(s@) == done + lines_of(s@.skip(pos as int)),
            views(out@) == done,
        decreases s.len() - pos,
    {
        let ghost rest = s@.skip(pos as int);
        let n = index_of(s, pos, '\n');
        let mut end = n;
        if n < s.len() && n > pos && s[n - 1] == '\r' {
            end = n - 1;
        }
        let line = slice_to_vec(slice_subrange(s, pos, end));
        proof {
            assert(rest.take(n - pos) == s@.subrange(pos as int, n as int));
            if n < s.len() {
                assert(line@ == without_cr(rest.take(n - pos)));
                assert(rest.skip(n - pos + 1) == s@.skip(n + 1));
                assert(done + (seq![line@] + lines_of(s@.skip(n + 1))) == done.push(line@)
                    + lines_of(s@.skip(n + 1)));
            } else {
                assert(line@ == rest);
                assert(s@.skip(s.len() as int).len() == 0);
                assert(done + seq![line@] == done.push(line@) + lines_of(
                    s@.skip(s.len() as int),
                ));
            }
            done = done.push(line@);
        }
        out.push(line);
        assert(views(out@) == done);
        pos = if n < s.len() {
            n + 1
        } else {
            n
        };
    }
    assert(done + Seq::<Seq<char>>::empty() == done);
    out
}

/// Trims each of `lines`.
pub fn trim_lines(lines: &Vec<Vec<char>>) -> (out: Vec<Vec<char>>)
    ensures
        views(out@) == views(lines@).map_values(|l: Seq<char>| trimmed(l)),
{
    let mut out: Vec<Vec<char>> = Vec::new();
    let mut i: usize = 0;
    while i < lines.len()
        invariant
            i <= lines.len(),
            out.len() == i,
            forall|j: int| 0 <= j < i ==> (#[trigger] out@[j])@ == trimmed(lines@[j]@),
        decreases lines.len() - i,
    {
        let kept = slice_to_vec(trim(lines[i].as_slice()));
        out.push(kept);
        i += 1;
    }
    assert(views(out@) =~= views(lines@).map_values(|l: Seq<char>| trimmed(l)));
    out
}

/// Splits `s` into its lines and trims each.
pub fn trimmed_lines(s: &[char]) -> (out: Vec<Vec<char>>)
    ensures
        views(out@) == trimmed_lines_of(s@),
{
    let lines = split_lines(s);
    trim_lines(&lines)
}

// ---------------------------------------------------------------------------
// Tokens
// ---------------------------------------------------------------------------

/// The maximal runs of characters of `s` that are not white space, in order.
pub open spec fn tokens_of(s: Seq<char>) -> Seq<Seq<char>>
    decreases s.len(),
    via tokens_of_decreases
{
    if s.len() == 0 {
        Seq::empty()
    } else if is_whitespace(s[0]) {
        tokens_of(s.skip(1))
    } else {
        let n = run_length(s, false);
        seq![s.take(n as int)] + tokens_of(s.skip(n as int))
    }
}

#[via_fn]
proof fn tokens_of_decreases(s: Seq<char>) {
    lemma_run_length_bounds(s, false);
}

/// Splits `s` at white space into its tokens.
pub fn split_whitespace(s: &[char]) -> (out: Vec<Vec<char>>)
    ensures
        views(out@) == tokens_of(s@),
{
    let mut out: Vec<Vec<char>> = Vec::new();
    let mut pos: usize = 0;
    let ghost mut done: Seq<Seq<char>> = Seq::empty();
    assert(s@.skip(0) == s@);
    while pos < s.len()
        invariant
            pos <= s.len(),
            tokens_of(s@) == done + tokens_of(s@.skip(pos as int)),
            views(out@) == done,
        decreases s.len() - pos,
    {
        let ghost rest = s@.skip(pos as int);
        if char_is_whitespace(s[pos]) {
            assert(rest.skip(1) == s@.skip(pos + 1));
            pos += 1;
        } else {
            let n = run_end(s, pos, false);
            let token = slice_to_vec(slice_subrange(s, pos, n));
            proof {
                assert(n > pos);
                assert(rest.take(n - pos) == s@.subrange(pos as int, n as int));
                assert(rest.skip(n - pos) == s@.skip(n as int));
                assert(done + (seq![token@] + tokens_of(s@.skip(n as int))) == done.push(token@)
                    + tokens_of(s@.skip(n as int)));
                done = done.push(token@);
            }
            out.push(token);
            assert(views(out@) == done);
            pos = n;
        }
    }
    assert(done + Seq::<Seq<char>>::empty() == done);
    out
}

// ---------------------------------------------------------------------------
// Prefixes and substrings
// ---------------------------------------------------------------------------

/// Whether `p` stands in `s` at index `i`.
pub open spec fn occurs_at(s: Seq<char>, p: Seq<char>, i: int) -> bool {
    0 <= i && i + p.len() <= s.len() && s.subrange(i, i + p.len()) == p
}

/// Whether `s` begins with `p`.
pub open spec fn has_prefix(s: Seq<char>, p: Seq<char>) -> bool {
    occurs_at(s, p, 0)
}

/// Whether `p` stands somewhere in `s`.
pub open spec fn has_substring(s: Seq<char>, p: Seq<char>) -> bool {
    exists|i: int| occurs_at(s, p, i)
}

/// Tests whether `p` stands in `s` at index `i`.
pub fn matches_at(s: &[char], p: &[char], i: usize) -> (b: bool)
    ensures
        b == occurs_at(s@, p@, i as int),
{
    if i > s.len() || p.len() > s.len() - i {
        return false;
    }
    let mut k: usize = 0;
    while k < p.len()
        invariant
            k <= p.len(),
            i + p.len() <= s.len(),
            forall|j: int| 0 <= j < k ==> s@[i + j] == p@[j],
        decreases p.len() - k,
    {
        if s[i + k] != p[k] {
            assert(s@.subrange(i as int, i + p.len())[k as int] != p@[k as int]);
            return false;
        }
        k += 1;
    }
    assert(s@.subrange(i as int, i + p.len()) == p@);
    true
}

/// Tests whether `s` begins with `prefix`.
pub fn starts_with(s: &[char], prefix: &str) -> (b: bool)
    ensures
        b == has_prefix(s@, prefix@),
{
    let p = to_chars(prefix);
    matches_at(s, p.as_slice(), 0)
}

/// Tests whether `s` is `other`, character for character.
pub fn equals(s: &[char], other: &str) -> (b: bool)
    ensures
        b == (s@ == other@),
{
    let p = to_chars(other);
    let b = p.len() == s.len() && matches_at(s, p.as_slice(), 0);
    proof {
        if p.len() == s.len() {
            assert(s@.subrange(0, s.len() as int) == s@);
        }
    }
    b
}

/// Tests whether `pattern` stands somewhere in `s`.
pub fn contains(s: &[char], pattern: &str) -> (b: bool)
    ensures
        b == has_substring(s@, pattern@),
{
    let p = to_chars(pattern);
    if p.len() > s.len() {
        assert forall|i: int| !occurs_at(s@, p@, i) by {}
        return false;
    }
    let last: usize = s.len() - p.len();
    let mut i: usize = 0;
    while i < last
        invariant
            last == s.len() - p.len(),
            i <= last,
            p@ == pattern@,
            forall|j: int| 0 <= j < i ==> !occurs_at(s@, p@, j),
        decreases last - i,
    {
        if matches_at(s, p.as_slice(), i) {
            return true;
        }
        i += 1;
    }
    let b = matches_at(s, p.as_slice(), last);
    if !b {
        assert forall|j: int| !occurs_at(s@, p@, j) by {}
    }
    b
}

// ---------------------------------------------------------------------------
// Replacing and joining
// ---------------------------------------------------------------------------

/// `s` with each `from` replaced by the characters of `to`.
pub open spec fn replaced(s: Seq<char>, from: char, to: Seq<char>) -> Seq<char>
    decreases s.len(),
{
    if s.len() == 0 {
        Seq::empty()
    } else {
        replaced(s.drop_last(), from, to) + (if s.last() == from {
            to
        } else {
            seq![s.last()]
        })
    }
}

/// Replaces each `from` in `s` by the characters of `to`.
pub fn replace(s: &[char], from: char, to: &str) -> (out: Vec<char>)
    ensures
        out@ == replaced(s@, from, to@),
{
    let with = to_chars(to);
    let mut out: Vec<char> = Vec::new();
    let mut i: usize = 0;
    assert(s@.take(0) == Seq::<char>::empty());
    while i < s.len()
        invariant
            i <= s.len(),
            with@ == to@,
            out@ == replaced(s@.take(i as int), from, to@),
        decreases s.len() - i,
    {
        let ghost before = out@;
        assert(s@.take(i + 1).drop_last() == s@.take(i as int));
        if s[i] == from {
            let mut k: usize = 0;
            while k < with.len()
                invariant
                    k <= with.len(),
                    out@ == before + with@.take(k as int),
                decreases with.len() - k,
            {
                out.push(with[k]);
                k += 1;
            }
            assert(with@.take(with.len() as int) == with@);
        } else {
            out.push(s[i]);
            assert(out@ == before + seq![s@[i as int]]);
        }
        i += 1;
    }
    assert(s@.take(s.len() as int) == s@);
    out
}

/// The sequences of `parts` in order, with `sep` between neighbours.
pub open spec fn joined(parts: Seq<Seq<char>>, sep: Seq<char>) -> Seq<char>
    decreases parts.len(),
{
    if parts.len() == 0 {
        Seq::empty()
    } else if parts.len() == 1 {
        parts[0]
    } else {
        joined(parts.drop_last(), sep) + sep + parts.last()
    }
}

/// The views of a vector of string slices.
pub open spec fn str_views(v: Seq<&str>) -> Seq<Seq<char>> {
    Seq::new(v.len(), |i: int| v[i]@)
}

/// Joins `parts` with `sep` between neighbours.
pub fn join(parts: &Vec<&str>, sep: &str) -> (out: String)
    ensures
        out@ == joined(str_views(parts@), sep@),
{
    let mut out = String::new();
    let mut i: usize = 0;
    let ghost all = str_views(parts@);
    assert(all.take(0) == Seq::<Seq<char>>::empty());
    while i < parts.len()
        invariant
            i <= parts.len(),
            all == str_views(parts@),
            out@ == joined(all.take(i as int), sep@),
        decreases parts.len() - i,
    {
        assert(all.take(i + 1).drop_last() == all.take(i as int));
        assert(all.take(i + 1).last() == parts@[i as int]@);
        if i > 0 {
            out.append(sep);
        } else {
            assert(all.take(1)[0] == parts@[0]@);
        }
        out.append(parts[i]);
        i += 1;
    }
    assert(all.take(parts.len() as int) == all);
    out
}

// ---------------------------------------------------------------------------
// What holds of tokens, substrings and joined text
// ---------------------------------------------------------------------------

/// Whether `s`, unless empty, neither starts nor ends with white space.
pub open spec fn is_trimmed(s: Seq<char>) -> bool {
    s.len() > 0 ==> !is_whitespace(s[0]) && !is_whitespace(s.last())
}

/// Every trimmed line is trimmed.
pub proof fn lemma_trimmed_lines_are_trimmed(s: Seq<char>)
    ensures
        forall|i: int|
            0 <= i < trimmed_lines_of(s).len() ==> is_trimmed(#[trigger] trimmed_lines_of(s)[i]),
{
    assert forall|i: int| 0 <= i < trimmed_lines_of(s).len() implies is_trimmed(
        #[trigger] trimmed_lines_of(s)[i],
    ) by {
        lemma_trimmed_ends(lines_of(s)[i]);
    }
}

/// Text that holds a character which is not white space has a token.
pub proof fn lemma_tokens_nonempty(s: Seq<char>, i: int)
    requires
        0 <= i < s.len(),
        !is_whitespace(s[i]),
    ensures
        tokens_of(s).len() >= 1,
    decreases s.len(),
{
    if is_whitespace(s[0]) {
        assert(s.skip(1)[i - 1] == s[i]);
        lemma_tokens_nonempty(s.skip(1), i - 1);
    }
}

/// What stands in one of two texts stands in the two put together.
pub proof fn lemma_substring_in_concat(a: Seq<char>, b: Seq<char>, p: Seq<char>)
    ensures
        has_substring(a, p) ==> has_substring(a + b, p),
        has_substring(b, p) ==> has_substring(a + b, p),
{
    if has_substring(a, p) {
        let i = choose|i: int| occurs_at(a, p, i);
        assert((a + b).subrange(i, i + p.len()) == a.subrange(i, i + p.len()));
        assert(occurs_at(a + b, p, i));
    }
    if has_substring(b, p) {
        let i = choose|i: int| occurs_at(b, p, i);
        assert((a + b).subrange(a.len() + i, a.len() + i + p.len()) == b.subrange(
            i,
            i + p.len(),
        ));
        assert(occurs_at(a + b, p, a.len() + i));
    }
}

/// Every text stands in itself.
pub proof fn lemma_substring_of_itself(s: Seq<char>)
    ensures
        has_substring(s, s),
{
    assert(s.subrange(0, s.len() as int) == s);
    assert(occurs_at(s, s, 0));
}

/// Each part stands in the joined text.
pub proof fn lemma_joined_has_part(parts: Seq<Seq<char>>, sep: Seq<char>, i: int)
    requires
        0 <= i < parts.len(),
    ensures
        has_substring(joined(parts, sep), parts[i]),
    decreases parts.len(),
{
    if parts.len() == 1 {
        lemma_substring_of_itself(parts[0]);
    } else {
        let d = parts.drop_last();
        if i == parts.len() - 1 {
            lemma_substring_of_itself(parts.last());
            lemma_substring_in_concat(joined(d, sep) + sep, parts.last(), parts[i]);
        } else {
            assert(d[i] == parts[i]);
            lemma_joined_has_part(d, sep, i);
            lemma_substring_in_concat(joined(d, sep), sep, parts[i]);
            lemma_substring_in_concat(joined(d, sep) + sep, parts.last(), parts[i]);
        }
    }
}

/// What a trimmed text begins with, the text trimmed at its start begins
/// with too.
pub proof fn lemma_prefix_of_trimmed(s: Seq<char>, p: Seq<char>)
    requires
        has_prefix(trimmed(s), p),
    ensures
        has_prefix(trimmed_start(s), p),
{
    let t = trimmed_start(s);
    lemma_trimmed_end_shape(t);
    assert(t.subrange(0, p.len() as int) == trimmed(s).subrange(0, p.len() as int));
}

} // verus!

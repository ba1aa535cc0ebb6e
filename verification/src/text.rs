//! Scanning and splitting of character sequences.
use vstd::prelude::*;

verus! {

/// `String::push` of std appends the character to the end of the string.
pub assume_specification[ String::push ](s: &mut String, c: char)
    ensures
        final(s)@ == old(s)@.push(c),
;

/// The text of an optional string.
pub open spec fn opt_text(s: Option<String>) -> Option<Seq<char>> {
    match s {
        Some(x) => Some(x@),
        None => None,
    }
}

/// The first index at or after `from` at which `s` holds `c`, or the length of
/// `s` where there is none.
pub open spec fn find_from(s: Seq<char>, c: char, from: int) -> int
    decreases s.len() - from,
{
    if from >= s.len() {
        s.len() as int
    } else if s[from] == c {
        from
    } else {
        find_from(s, c, from + 1)
    }
}

/// The first index at which `s` holds `c`, or the length of `s`.
pub open spec fn find(s: Seq<char>, c: char) -> int {
    find_from(s, c, 0)
}

/// Whether `c` is white space inside a line: a space, a tab, a carriage
/// return, a vertical tab or a form feed.
pub open spec fn is_whitespace(c: char) -> bool {
    c == ' ' || c == '\t' || c == '\r' || c == '\u{b}' || c == '\u{c}'
}

/// The first index at or after `from` at which `s` holds white space, or the
/// length of `s` where there is none.
pub open spec fn find_whitespace_from(s: Seq<char>, from: int) -> int
    decreases s.len() - from,
{
    if from >= s.len() {
        s.len() as int
    } else if is_whitespace(s[from]) {
        from
    } else {
        find_whitespace_from(s, from + 1)
    }
}

/// The first index at which `s` holds white space, or the length of `s`.
pub open spec fn find_whitespace(s: Seq<char>) -> int {
    find_whitespace_from(s, 0)
}

/// The `n`-th piece of `s` when it is cut at every `c`, counted from 0;
/// `None` where `s` has fewer than `n + 1` pieces.
pub open spec fn nth_token(s: Seq<char>, c: char, n: nat) -> Option<Seq<char>>
    decreases n,
{
    let i = find(s, c);
    if n == 0 {
        Some(s.take(i))
    } else if i >= s.len() {
        None
    } else {
        nth_token(s.skip(i + 1), c, (n - 1) as nat)
    }
}

/// The pieces of `s` when it is cut at every `c`. There is always at least one.
pub open spec fn split(s: Seq<char>, c: char) -> Seq<Seq<char>>
    decreases s.len(),
{
    let i = find(s, c);
    if i < 0 || i >= s.len() {
        seq![s]
    } else {
        seq![s.take(i)] + split(s.skip(i + 1), c)
    }
}

/// `find_from` gives the first place of `c` at or after `from`, and `c`
/// stands nowhere before it.
pub proof fn lemma_find_from_bounds(s: Seq<char>, c: char, from: int)
    requires
        0 <= from <= s.len(),
    ensures
        from <= find_from(s, c, from) <= s.len(),
        find_from(s, c, from) < s.len() ==> s[find_from(s, c, from)] == c,
        forall|j: int| from <= j < find_from(s, c, from) ==> s[j] != c,
    decreases s.len() - from,
{
    if from < s.len() && s[from] != c {
        lemma_find_from_bounds(s, c, from + 1);
    }
}

/// `find_whitespace_from` gives the first place of white space at or after
/// `from`, and nothing before it is white space.
pub proof fn lemma_find_whitespace_bounds(s: Seq<char>, from: int)
    requires
        0 <= from <= s.len(),
    ensures
        from <= find_whitespace_from(s, from) <= s.len(),
        find_whitespace_from(s, from) < s.len() ==> is_whitespace(s[find_whitespace_from(s, from)]),
        forall|j: int| from <= j < find_whitespace_from(s, from) ==> !is_whitespace(s[j]),
    decreases s.len() - from,
{
    if from < s.len() && !is_whitespace(s[from]) {
        lemma_find_whitespace_bounds(s, from + 1);
    }
}

/// Searching a suffix finds the same place as searching the whole from the
/// suffix's start.
pub proof fn lemma_find_skip(s: Seq<char>, c: char, from: int, k: int)
    requires
        0 <= k <= s.len(),
        0 <= from <= s.len() - k,
    ensures
        find_from(s.skip(k), c, from) + k == find_from(s, c, from + k),
    decreases s.len() - k - from,
{
    if from < s.len() - k && s[from + k] != c {
        lemma_find_skip(s, c, from + 1, k);
    }
}

/// The characters of `s`.
pub fn chars_of(s: &str) -> (v: Vec<char>)
    ensures
        v@ == s@,
{
    let n: usize = s.unicode_len();
    let mut v: Vec<char> = Vec::new();
    let mut i: usize = 0;
    while i < n
        invariant
            n == s@.len(),
            i <= n,
            v@ == s@.take(i as int),
        decreases n - i,
    {
        v.push(s.get_char(i));
        i += 1;
        assert(v@ =~= s@.take(i as int));
    }
    assert(s@.take(n as int) =~= s@);
    v
}

/// The string made of `v[from..to]`.
pub fn string_of(v: &Vec<char>, from: usize, to: usize) -> (s: String)
    requires
        from <= to <= v@.len(),
    ensures
        s@ == v@.subrange(from as int, to as int),
{
    let mut s = String::new();
    let mut i: usize = from;
    while i < to
        invariant
            from <= i <= to <= v@.len(),
            s@ == v@.subrange(from as int, i as int),
        decreases to - i,
    {
        s.push(v[i]);
        i += 1;
        assert(s@ =~= v@.subrange(from as int, i as int));
    }
    s
}

/// The first index in `from..` at which `v` holds `c`, or the length of `v`.
pub fn find_char(v: &Vec<char>, c: char, from: usize) -> (i: usize)
    requires
        from <= v@.len(),
    ensures
        i == find_from(v@, c, from as int),
        from <= i <= v@.len(),
{
    let mut i: usize = from;
    while i < v.len() && v[i] != c
        invariant
            from <= i <= v@.len(),
            find_from(v@, c, from as int) == find_from(v@, c, i as int),
        decreases v@.len() - i,
    {
        i += 1;
    }
    i
}

/// Whether `c` is white space inside a line.
pub fn is_whitespace_char(c: char) -> (r: bool)
    ensures
        r == is_whitespace(c),
{
    c == ' ' || c == '\t' || c == '\r' || c == '\u{b}' || c == '\u{c}'
}

/// The first index in `from..` at which `v` holds white space, or the length
/// of `v`.
pub fn find_whitespace_char(v: &Vec<char>, from: usize) -> (i: usize)
    requires
        from <= v@.len(),
    ensures
        i == find_whitespace_from(v@, from as int),
        from <= i <= v@.len(),
        i < v@.len() ==> is_whitespace(v@[i as int]),
        forall|j: int| from <= j < i ==> !is_whitespace(v@[j]),
{
    let mut i: usize = from;
    while i < v.len() && !is_whitespace_char(v[i])
        invariant
            from <= i <= v@.len(),
            find_whitespace_from(v@, from as int) == find_whitespace_from(v@, i as int),
            forall|j: int| from <= j < i ==> !is_whitespace(v@[j]),
        decreases v@.len() - i,
    {
        i += 1;
    }
    i
}

/// The `n`-th piece of `v` when it is cut at every `c`.
pub fn token(v: &Vec<char>, c: char, n: usize) -> (r: Option<Vec<char>>)
    ensures
        match r {
            Some(t) => nth_token(v@, c, n as nat) == Some(t@),
            None => nth_token(v@, c, n as nat) is None,
        },
{
    let mut pos: usize = 0;
    let mut k: usize = 0;
    proof {
        assert(v@.skip(0) =~= v@);
    }
    while k < n
        invariant
            pos <= v@.len(),
            k <= n,
            nth_token(v@, c, n as nat) == nth_token(v@.skip(pos as int), c, (n - k) as nat),
        decreases n - k,
    {
        let i = find_char(v, c, pos);
        proof {
            lemma_find_skip(v@, c, 0, pos as int);
        }
        if i >= v.len() {
            return None;
        }
        proof {
            assert(v@.skip(pos as int).skip(i - pos + 1) =~= v@.skip(i + 1));
        }
        pos = i + 1;
        k += 1;
    }
    let i = find_char(v, c, pos);
    proof {
        lemma_find_skip(v@, c, 0, pos as int);
        assert(v@.skip(pos as int).take(i - pos) =~= v@.subrange(pos as int, i as int));
    }
    Some(slice_of(v, pos, i))
}

/// Whether `v` spells `word`.
pub fn spells(v: &Vec<char>, word: &str) -> (r: bool)
    ensures
        r == (v@ == word@),
{
    let w = chars_of(word);
    if v.len() != w.len() {
        return false;
    }
    let mut i: usize = 0;
    while i < v.len()
        invariant
            i <= v@.len(),
            v@.len() == w@.len(),
            w@ == word@,
            v@.take(i as int) == w@.take(i as int),
        decreases v@.len() - i,
    {
        if v[i] != w[i] {
            assert(v@[i as int] != w@[i as int]);
            return false;
        }
        i += 1;
        assert(v@.take(i as int) =~= v@.take(i - 1).push(v@[i - 1]));
        assert(w@.take(i as int) =~= w@.take(i - 1).push(w@[i - 1]));
    }
    assert(v@ =~= v@.take(v@.len() as int));
    assert(w@ =~= w@.take(w@.len() as int));
    true
}

/// A copy of `v[from..to]`.
pub fn slice_of(v: &Vec<char>, from: usize, to: usize) -> (r: Vec<char>)
    requires
        from <= to <= v@.len(),
    ensures
        r@ == v@.subrange(from as int, to as int),
{
    let mut r: Vec<char> = Vec::new();
    let mut i: usize = from;
    while i < to
        invariant
            from <= i <= to <= v@.len(),
            r@ == v@.subrange(from as int, i as int),
        decreases to - i,
    {
        r.push(v[i]);
        i += 1;
        assert(r@ =~= v@.subrange(from as int, i as int));
    }
    r
}

} // verus!

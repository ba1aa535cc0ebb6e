//! Release versions: two numeric components, read from and written as text.
use crate::error::Error;
use crate::text::{chars_of, find, find_char, lemma_find_from_bounds};
use std::cmp::Ordering;
use vstd::std_specs::cmp::PartialOrdSpec;
use vstd::prelude::*;

verus! {

/// A release identifier, ordered by `major` and then by `minor`.
#[derive(Debug, Clone, Copy, PartialEq, Eq, Ord, Hash, Structural)]
pub struct Version {
    pub major: u32,
    pub minor: u32,
}

pub open spec fn digit_char(d: nat) -> char {
    if d == 0 {
        '0'
    } else if d == 1 {
        '1'
    } else if d == 2 {
        '2'
    } else if d == 3 {
        '3'
    } else if d == 4 {
        '4'
    } else if d == 5 {
        '5'
    } else if d == 6 {
        '6'
    } else if d == 7 {
        '7'
    } else if d == 8 {
        '8'
    } else {
        '9'
    }
}

/// The digit that `c` stands for, where it is one of `0` to `9`.
pub open spec fn digit_of(c: char) -> Option<nat> {
    if c == '0' {
        Some(0nat)
    } else if c == '1' {
        Some(1nat)
    } else if c == '2' {
        Some(2nat)
    } else if c == '3' {
        Some(3nat)
    } else if c == '4' {
        Some(4nat)
    } else if c == '5' {
        Some(5nat)
    } else if c == '6' {
        Some(6nat)
    } else if c == '7' {
        Some(7nat)
    } else if c == '8' {
        Some(8nat)
    } else if c == '9' {
        Some(9nat)
    } else {
        None
    }
}

pub open spec fn is_digit(c: char) -> bool {
    digit_of(c) is Some
}

pub open spec fn digit_value(c: char) -> nat {
    match digit_of(c) {
        Some(d) => d,
        None => 0,
    }
}

/// The digit that `c` stands for.
pub fn digit(c: char) -> (r: Option<u8>)
    ensures
        r is Some == is_digit(c),
        r matches Some(d) ==> d == digit_value(c) && d < 10,
{
    if c == '0' {
        Some(0)
    } else if c == '1' {
        Some(1)
    } else if c == '2' {
        Some(2)
    } else if c == '3' {
        Some(3)
    } else if c == '4' {
        Some(4)
    } else if c == '5' {
        Some(5)
    } else if c == '6' {
        Some(6)
    } else if c == '7' {
        Some(7)
    } else if c == '8' {
        Some(8)
    } else if c == '9' {
        Some(9)
    } else {
        None
    }
}

/// The character that stands for the digit `d`.
pub fn digit_to_char(d: u8) -> (c: char)
    requires
        d < 10,
    ensures
        c == digit_char(d as nat),
{
    if d == 0 {
        '0'
    } else if d == 1 {
        '1'
    } else if d == 2 {
        '2'
    } else if d == 3 {
        '3'
    } else if d == 4 {
        '4'
    } else if d == 5 {
        '5'
    } else if d == 6 {
        '6'
    } else if d == 7 {
        '7'
    } else if d == 8 {
        '8'
    } else {
        '9'
    }
}

pub open spec fn all_digits(s: Seq<char>) -> bool {
    forall|i: int| 0 <= i < s.len() ==> is_digit(#[trigger] s[i])
}

/// The number that a sequence of decimal digits denotes.
pub open spec fn decimal_value(s: Seq<char>) -> nat
    decreases s.len(),
{
    if s.len() == 0 {
        0
    } else {
        decimal_value(s.drop_last()) * 10 + digit_value(s.last())
    }
}

/// The decimal digits of `n`, without leading zeros.
pub open spec fn decimal_text(n: nat) -> Seq<char>
    decreases n,
{
    if n < 10 {
        seq![digit_char(n)]
    } else {
        decimal_text(n / 10).push(digit_char(n % 10))
    }
}

/// `s` without one leading `+`.
pub open spec fn without_sign(s: Seq<char>) -> Seq<char> {
    if s.len() > 0 && s[0] == '+' {
        s.skip(1)
    } else {
        s
    }
}

/// Whether `s` is a non-negative decimal integer that fits 32 bits: one or
/// more digits, with an optional `+` before them.
pub open spec fn is_number(s: Seq<char>) -> bool {
    let d = without_sign(s);
    d.len() > 0 && all_digits(d) && decimal_value(d) <= u32::MAX
}

pub open spec fn number_value(s: Seq<char>) -> u32 {
    decimal_value(without_sign(s)) as u32
}

/// Digits written the one way that `decimal_text` writes them.
pub open spec fn is_canonical_number(s: Seq<char>) -> bool {
    s.len() > 0 && all_digits(s) && (s.len() > 1 ==> s[0] != '0') && decimal_value(s) <= u32::MAX
}

/// What a text denotes as a version: `major.minor`, cut at the first dot, or
/// `major` alone with a minor of 0.
pub open spec fn parse_spec(s: Seq<char>) -> Option<Version> {
    let dot = find(s, '.');
    if 0 <= dot < s.len() {
        let major = s.take(dot);
        let minor = s.skip(dot + 1);
        if is_number(major) && is_number(minor) {
            Some(Version { major: number_value(major), minor: number_value(minor) })
        } else {
            None
        }
    } else if is_number(s) {
        Some(Version { major: number_value(s), minor: 0 })
    } else {
        None
    }
}

/// Whether `s` is a two-component version in canonical form.
pub open spec fn is_canonical_text(s: Seq<char>) -> bool {
    let dot = find(s, '.');
    0 <= dot < s.len() && is_canonical_number(s.take(dot)) && is_canonical_number(s.skip(dot + 1))
}

pub proof fn lemma_prefix_value(s: Seq<char>, k: int)
    requires
        0 <= k <= s.len(),
    ensures
        decimal_value(s.take(k)) <= decimal_value(s),
    decreases s.len(),
{
    if k == s.len() {
        assert(s.take(k) =~= s);
    } else {
        lemma_prefix_value(s.drop_last(), k);
        assert(s.drop_last().take(k) =~= s.take(k));
    }
}

pub proof fn lemma_decimal_text_digits(n: nat)
    ensures
        decimal_text(n).len() > 0,
        all_digits(decimal_text(n)),
        decimal_text(n).len() > 1 <==> n >= 10,
        decimal_text(n).len() > 1 ==> decimal_text(n)[0] != '0',
        decimal_value(decimal_text(n)) == n,
    decreases n,
{
    let t = decimal_text(n);
    if n < 10 {
        assert(t.drop_last() =~= Seq::<char>::empty());
        assert(decimal_value(t.drop_last()) == 0);
        assert(digit_value(t.last()) == n);
    } else {
        lemma_decimal_text_digits(n / 10);
        let p = decimal_text(n / 10);
        assert(t.drop_last() =~= p);
        assert(t.last() == digit_char(n % 10));
        assert(digit_value(t.last()) == n % 10);
        assert(t[0] == p[0]);
        if p.len() == 1 {
            assert(p[0] == digit_char(n / 10));
        }
        assert forall|i: int| 0 <= i < t.len() implies is_digit(#[trigger] t[i]) by {
            if i < p.len() {
                assert(t[i] == p[i]);
            }
        }
    }
}

pub proof fn lemma_canonical_text(s: Seq<char>)
    requires
        s.len() > 0,
        all_digits(s),
        s.len() > 1 ==> s[0] != '0',
    ensures
        decimal_text(decimal_value(s)) == s,
    decreases s.len(),
{
    let c = s.last();
    let p = s.drop_last();
    assert(is_digit(c));
    if s.len() == 1 {
        assert(p =~= Seq::<char>::empty());
        assert(decimal_value(p) == 0);
        assert(decimal_text(decimal_value(s)) =~= s);
    } else {
        assert(p[0] == s[0]);
        assert forall|i: int| 0 <= i < p.len() implies is_digit(#[trigger] p[i]) by {
            assert(p[i] == s[i]);
        }
        lemma_canonical_text(p);
        lemma_prefix_value(p, 1);
        assert(p.take(1).drop_last() =~= Seq::<char>::empty());
        assert(decimal_value(p.take(1).drop_last()) == 0);
        assert(p.take(1).last() == p[0]);
        assert(decimal_value(p.take(1)) == digit_value(p[0]));
        assert(is_digit(p[0]));
        assert(decimal_value(p) >= 1);
        let v = decimal_value(s);
        assert(v == decimal_value(p) * 10 + digit_value(c));
        assert(v / 10 == decimal_value(p));
        assert(v % 10 == digit_value(c));
        assert(digit_char(digit_value(c)) == c);
        assert(decimal_text(v) =~= s);
    }
}

/// The first dot of `a + "." + b` is where `a` ends, when `a` holds none.
pub proof fn lemma_find_dot(a: Seq<char>, b: Seq<char>)
    requires
        all_digits(a),
    ensures
        find(a + seq!['.'] + b, '.') == a.len(),
        (a + seq!['.'] + b).take(a.len() as int) == a,
        (a + seq!['.'] + b).skip(a.len() as int + 1) == b,
{
    let s = a + seq!['.'] + b;
    lemma_find_from_bounds(s, '.', 0);
    let r = find(s, '.');
    assert(s[a.len() as int] == '.');
    if r < a.len() {
        assert(s[r] == a[r]);
        assert(is_digit(a[r]));
    }
    assert(s.take(a.len() as int) =~= a);
    assert(s.skip(a.len() as int + 1) =~= b);
}

impl Version {
    /// The canonical text of a version: `major.minor`.
    pub open spec fn text(self) -> Seq<char> {
        decimal_text(self.major as nat) + seq!['.'] + decimal_text(self.minor as nat)
    }

    /// Whether `self` comes strictly before `other`.
    pub open spec fn is_before(self, other: Version) -> bool {
        self.major < other.major || (self.major == other.major && self.minor < other.minor)
    }

    /// Reads a version from `<number>` or `<number>.<number>`.
    pub fn parse(s: &str) -> (r: Result<Version, Error>)
        ensures
            r == match parse_spec(s@) {
                Some(v) => Ok::<Version, Error>(v),
                None => Err::<Version, Error>(Error::InvalidVersion),
            },
    {
        let v = chars_of(s);
        Version::parse_chars(&v)
    }

    /// Reads a version from the characters of its text.
    pub fn parse_chars(v: &Vec<char>) -> (r: Result<Version, Error>)
        ensures
            r == match parse_spec(v@) {
                Some(x) => Ok::<Version, Error>(x),
                None => Err::<Version, Error>(Error::InvalidVersion),
            },
    {
        let n = v.len();
        let dot = find_char(v, '.', 0);
        proof {
            assert(v@.take(dot as int) =~= v@.subrange(0, dot as int));
            assert(v@ =~= v@.subrange(0, n as int));
        }
        if dot < n {
            proof {
                assert(v@.skip(dot + 1) =~= v@.subrange(dot + 1, n as int));
            }
            match parse_number(v, 0, dot) {
                None => Err(Error::InvalidVersion),
                Some(major) => match parse_number(v, dot + 1, n) {
                    None => Err(Error::InvalidVersion),
                    Some(minor) => Ok(Version { major, minor }),
                },
            }
        } else {
            match parse_number(v, 0, n) {
                None => Err(Error::InvalidVersion),
                Some(major) => Ok(Version { major, minor: 0 }),
            }
        }
    }

    /// Writes the version as `major.minor`.
    pub fn to_string(&self) -> (s: String)
        ensures
            s@ == self.text(),
    {
        let mut s = String::new();
        push_decimal(&mut s, self.major);
        s.push('.');
        push_decimal(&mut s, self.minor);
        proof {
            assert(s@ =~= self.text());
        }
        s
    }

    /// Whether `self` is strictly newer than `other`.
    pub fn is_newer_than(&self, other: &Version) -> (r: bool)
        ensures
            r == other.is_before(*self),
    {
        self.major > other.major || (self.major == other.major && self.minor > other.minor)
    }
}

/// Reads `v[from..to]` as a decimal number of 32 bits.
pub fn parse_number(v: &Vec<char>, from: usize, to: usize) -> (r: Option<u32>)
    requires
        from <= to <= v@.len(),
    ensures
        r == if is_number(v@.subrange(from as int, to as int)) {
            Some(number_value(v@.subrange(from as int, to as int)))
        } else {
            None
        },
{
    let ghost s = v@.subrange(from as int, to as int);
    let mut i: usize = from;
    if i < to && v[i] == '+' {
        i += 1;
    }
    let start: usize = i;
    let ghost d = v@.subrange(start as int, to as int);
    proof {
        assert(d =~= without_sign(s));
    }
    if start == to {
        return None;
    }
    let mut acc: u64 = 0;
    proof {
        assert(d.take(0) =~= Seq::<char>::empty());
    }
    while i < to
        invariant
            start <= i <= to <= v@.len(),
            d == v@.subrange(start as int, to as int),
            s == v@.subrange(from as int, to as int),
            d == without_sign(s),
            all_digits(d.take(i - start)),
            acc == decimal_value(d.take(i - start)),
            acc <= u32::MAX,
        decreases to - i,
    {
        let digit_here = digit(v[i]);
        if digit_here.is_none() {
            proof {
                assert(!is_digit(d[i - start]));
            }
            return None;
        }
        let c: u8 = digit_here.unwrap();
        let next: u64 = acc * 10 + c as u64;
        proof {
            let t = d.take(i + 1 - start);
            assert(t.drop_last() =~= d.take(i - start));
            assert(t.last() == v@[i as int]);
            assert(is_digit(v@[i as int]));
            assert(decimal_value(t) == next);
            assert forall|j: int| 0 <= j < t.len() implies is_digit(#[trigger] t[j]) by {
                if j < i - start {
                    assert(t[j] == d.take(i - start)[j]);
                }
            }
        }
        if next > 4294967295 {
            proof {
                lemma_prefix_value(d, i + 1 - start);
            }
            return None;
        }
        acc = next;
        i += 1;
    }
    proof {
        assert(d.take(to - start) =~= d);
    }
    Some(acc as u32)
}

/// Appends the decimal digits of `n` to `out`.
pub fn push_decimal(out: &mut String, n: u32)
    ensures
        final(out)@ == old(out)@ + decimal_text(n as nat),
    decreases n,
{
    if n >= 10 {
        push_decimal(out, n / 10);
    }
    let d: u8 = (n % 10) as u8;
    let c: char = digit_to_char(d);
    out.push(c);
    proof {
        assert(c == digit_char((n % 10) as nat));
        assert(final(out)@ =~= old(out)@ + decimal_text(n as nat));
    }
}

/// Writing a version and reading the text back gives the version.
pub proof fn lemma_text_parses(v: Version)
    ensures
        parse_spec(v.text()) == Some(v),
        is_canonical_text(v.text()),
{
    let a = decimal_text(v.major as nat);
    let b = decimal_text(v.minor as nat);
    lemma_decimal_text_digits(v.major as nat);
    lemma_decimal_text_digits(v.minor as nat);
    lemma_find_dot(a, b);
    assert(is_digit(a[0]));
    assert(is_digit(b[0]));
    assert(without_sign(a) == a);
    assert(without_sign(b) == b);
}

/// Reading a two-component text in canonical form (digits, a dot, digits, no
/// sign and no leading zeros) and writing the version gives the same text.
pub proof fn lemma_parse_round_trip(s: Seq<char>)
    requires
        is_canonical_text(s),
    ensures
        parse_spec(s) is Some,
        parse_spec(s).unwrap().text() == s,
{
    let dot = find(s, '.');
    let a = s.take(dot);
    let b = s.skip(dot + 1);
    lemma_find_from_bounds(s, '.', 0);
    assert(is_digit(a[0]));
    assert(is_digit(b[0]));
    assert(without_sign(a) == a);
    assert(without_sign(b) == b);
    lemma_canonical_text(a);
    lemma_canonical_text(b);
    assert(s =~= a + seq!['.'] + b);
}

/// Whatever text a version was read from, its canonical text reads as the
/// same version: `20` is written `20.0`, which is read as `20` is.
pub proof fn lemma_round_trip_by_value(s: Seq<char>)
    requires
        parse_spec(s) is Some,
    ensures
        parse_spec(parse_spec(s).unwrap().text()) == parse_spec(s),
{
    lemma_text_parses(parse_spec(s).unwrap());
}

impl std::str::FromStr for Version {
    type Err = Error;

    fn from_str(s: &str) -> (r: Result<Version, Error>)
        ensures
            r == match parse_spec(s@) {
                Some(v) => Ok::<Version, Error>(v),
                None => Err::<Version, Error>(Error::InvalidVersion),
            },
    {
        Version::parse(s)
    }
}

impl PartialOrd for Version {
    fn partial_cmp(&self, other: &Version) -> (r: Option<Ordering>) {
        if self.major < other.major {
            Some(Ordering::Less)
        } else if self.major > other.major {
            Some(Ordering::Greater)
        } else if self.minor < other.minor {
            Some(Ordering::Less)
        } else if self.minor > other.minor {
            Some(Ordering::Greater)
        } else {
            Some(Ordering::Equal)
        }
    }
}

impl vstd::std_specs::cmp::PartialOrdSpecImpl for Version {
    open spec fn obeys_partial_cmp_spec() -> bool {
        true
    }

    open spec fn partial_cmp_spec(&self, other: &Version) -> Option<Ordering> {
        if self.major < other.major {
            Some(Ordering::Less)
        } else if self.major > other.major {
            Some(Ordering::Greater)
        } else if self.minor < other.minor {
            Some(Ordering::Less)
        } else if self.minor > other.minor {
            Some(Ordering::Greater)
        } else {
            Some(Ordering::Equal)
        }
    }
}

/// `<` on versions is the lexicographic order on `(major, minor)`, it is
/// total, and two versions that compare equal are equal.
pub proof fn lemma_order_is_lexicographic(a: Version, b: Version)
    ensures
        a.partial_cmp_spec(&b) == (a.major, a.minor).partial_cmp_spec(&(b.major, b.minor)),
        a.partial_cmp_spec(&b) == Some(Ordering::Less) <==> a.is_before(b),
        a.partial_cmp_spec(&b) == Some(Ordering::Greater) <==> b.is_before(a),
        a.partial_cmp_spec(&b) == Some(Ordering::Equal) <==> a == b,
        a.is_before(b) || b.is_before(a) || a == b,
        !(a.is_before(b) && b.is_before(a)),
{
}

/// The order on versions is transitive.
pub proof fn lemma_order_is_transitive(a: Version, b: Version, c: Version)
    requires
        a.is_before(b),
        b.is_before(c),
    ensures
        a.is_before(c),
{
}

} // verus!

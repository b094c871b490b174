//! Version triples and the names of the directories that hold installed releases.

use vstd::prelude::*;
use vstd::string::*;

verus! {

/// Every install directory is named this text followed by `<major>.<minor>.<patch>`.
pub const DIR_PREFIX: &'static str = "neocmakelsp-v";

/// A release version, ordered lexicographically by its three components.
#[derive(Clone, Copy, Debug, PartialEq, Eq, Structural, Hash)]
pub struct Version {
    pub major: u32,
    pub minor: u32,
    pub patch: u32,
}

/// `a` is older than or equal to `b` in the lexicographic triple order.
pub open spec fn version_le(a: Version, b: Version) -> bool {
    a.major < b.major || (a.major == b.major && (a.minor < b.minor || (a.minor == b.minor
        && a.patch <= b.patch)))
}

/// `a` is strictly older than `b`.
pub open spec fn version_lt(a: Version, b: Version) -> bool {
    version_le(a, b) && a != b
}

impl Version {
    /// Whether `self` is strictly newer than `other`.
    pub fn is_newer_than(&self, other: &Version) -> (r: bool)
        ensures
            r == !version_le(*self, *other),
    {
        if self.major != other.major {
            self.major > other.major
        } else if self.minor != other.minor {
            self.minor > other.minor
        } else {
            self.patch > other.patch
        }
    }
}

pub open spec fn is_digit(c: char) -> bool {
    '0' <= c <= '9'
}

pub open spec fn digit_value(c: char) -> nat {
    (c as int - '0' as int) as nat
}

pub open spec fn all_digits(s: Seq<char>) -> bool {
    forall|i: int| 0 <= i < s.len() ==> is_digit(#[trigger] s[i])
}

/// The value of a string of decimal digits, most significant first.
pub open spec fn digits_value(s: Seq<char>) -> nat
    decreases s.len(),
{
    if s.len() == 0 {
        0
    } else {
        digits_value(s.drop_last()) * 10 + digit_value(s.last())
    }
}

/// The digits of a component once an optional leading `+` is dropped.
pub open spec fn unsigned_body(s: Seq<char>) -> Seq<char> {
    if s.len() > 0 && s[0] == '+' {
        s.skip(1)
    } else {
        s
    }
}

/// The `u32` that `s` denotes in decimal: an optional `+`, then one or more
/// digits whose value fits in 32 bits.
pub open spec fn number_of(s: Seq<char>) -> Option<u32> {
    let b = unsigned_body(s);
    if b.len() > 0 && all_digits(b) && digits_value(b) <= u32::MAX {
        Some(digits_value(b) as u32)
    } else {
        None
    }
}

/// Reading `s` left to right: the pieces closed by a `.` so far, and the open piece.
pub open spec fn scan_dots(s: Seq<char>) -> (Seq<Seq<char>>, Seq<char>)
    decreases s.len(),
{
    if s.len() == 0 {
        (Seq::empty(), Seq::empty())
    } else {
        let (done, cur) = scan_dots(s.drop_last());
        if s.last() == '.' {
            (done.push(cur), Seq::empty())
        } else {
            (done, cur.push(s.last()))
        }
    }
}

/// `s` cut at every `.`; always at least one piece.
pub open spec fn split_dots(s: Seq<char>) -> Seq<Seq<char>> {
    let (done, cur) = scan_dots(s);
    done.push(cur)
}

/// The version that exactly three dot-separated numbers denote.
pub open spec fn version_of_parts(parts: Seq<Seq<char>>) -> Option<Version> {
    if parts.len() != 3 {
        None
    } else {
        match (number_of(parts[0]), number_of(parts[1]), number_of(parts[2])) {
            (Some(a), Some(b), Some(c)) => Some(Version { major: a, minor: b, patch: c }),
            _ => None,
        }
    }
}

/// The version that an install directory's name carries, if the name is well formed.
pub open spec fn version_of_dir(name: Seq<char>) -> Option<Version> {
    if DIR_PREFIX@.is_prefix_of(name) {
        version_of_parts(split_dots(name.skip(DIR_PREFIX@.len() as int)))
    } else {
        None
    }
}

/// The characters of `s`, one by one.
fn chars_of(s: &str) -> (r: Vec<char>)
    ensures
        r@ == s@,
{
    let n = s.unicode_len();
    let mut r: Vec<char> = Vec::new();
    let mut i: usize = 0;
    while i < n
        invariant
            n == s@.len(),
            i <= n,
            r@ == s@.take(i as int),
        decreases n - i,
    {
        r.push(s.get_char(i));
        i += 1;
        assert(r@ =~= s@.take(i as int));
    }
    assert(r@ =~= s@);
    r
}

proof fn lemma_prefix_value_le(s: Seq<char>, k: int)
    requires
        0 <= k <= s.len(),
    ensures
        digits_value(s.take(k)) <= digits_value(s),
    decreases s.len(),
{
    if k < s.len() {
        assert(s.drop_last().take(k) =~= s.take(k));
        lemma_prefix_value_le(s.drop_last(), k);
    } else {
        assert(s.take(k) =~= s);
    }
}

/// Reads a version component: an optional `+` and decimal digits that fit in a `u32`.
pub fn parse_number(s: &Vec<char>) -> (r: Option<u32>)
    ensures
        r == number_of(s@),
{
    let mut start: usize = 0;
    if s.len() > 0 && s[0] == '+' {
        start = 1;
    }
    let ghost b = unsigned_body(s@);
    assert(b =~= s@.skip(start as int));
    if start == s.len() {
        return None;
    }
    let mut value: u64 = 0;
    let mut i: usize = start;
    assert(b.take(0) =~= Seq::<char>::empty());
    while i < s.len()
        invariant
            start <= i <= s.len(),
            b == s@.skip(start as int),
            b == unsigned_body(s@),
            value == digits_value(b.take(i - start)),
            value <= u32::MAX,
            forall|k: int| 0 <= k < i - start ==> is_digit(#[trigger] b[k]),
        decreases s.len() - i,
    {
        let c = s[i];
        assert(b[i - start] == c);
        if !('0' <= c && c <= '9') {
            assert(!all_digits(b));
            return None;
        }
        let d: u64 = (c as u64) - ('0' as u64);
        assert(d == digit_value(c));
        assert(b.take(i + 1 - start).drop_last() =~= b.take(i - start));
        assert(b.take(i + 1 - start).last() == c);
        value = value * 10 + d;
        if value > u32::MAX as u64 {
            proof {
                lemma_prefix_value_le(b, i + 1 - start);
            }
            return None;
        }
        i += 1;
    }
    assert(b.take(i - start) =~= b);
    Some(value as u32)
}

/// Cuts `s` from position `from` on at every `.`.
fn split_on_dots(s: &Vec<char>, from: usize) -> (r: Vec<Vec<char>>)
    requires
        from <= s.len(),
    ensures
        r.len() == split_dots(s@.skip(from as int)).len(),
        forall|j: int| 0 <= j < r.len() ==> (#[trigger] r[j])@ == split_dots(s@.skip(from as int))[j],
{
    let ghost t = s@.skip(from as int);
    let mut done: Vec<Vec<char>> = Vec::new();
    let mut cur: Vec<char> = Vec::new();
    let mut i: usize = from;
    assert(t.take(0) =~= Seq::<char>::empty());
    while i < s.len()
        invariant
            from <= i <= s.len(),
            t == s@.skip(from as int),
            done.len() == scan_dots(t.take(i - from)).0.len(),
            forall|j: int| 0 <= j < done.len() ==> (#[trigger] done[j])@ == scan_dots(t.take(i - from)).0[j],
            cur@ == scan_dots(t.take(i - from)).1,
        decreases s.len() - i,
    {
        let c = s[i];
        assert(t.take(i + 1 - from).drop_last() =~= t.take(i - from));
        if c == '.' {
            done.push(cur);
            cur = Vec::new();
        } else {
            cur.push(c);
        }
        i += 1;
    }
    assert(t.take(i - from) =~= t);
    done.push(cur);
    done
}

/// The version in an install directory's name, or `None` where the name is
/// not `neocmakelsp-v<major>.<minor>.<patch>` with three numeric components.
pub fn parse_version_dir(name: &str) -> (r: Option<Version>)
    ensures
        r == version_of_dir(name@),
{
    let chars = chars_of(name);
    let prefix = chars_of(DIR_PREFIX);
    if chars.len() < prefix.len() {
        return None;
    }
    let mut i: usize = 0;
    while i < prefix.len()
        invariant
            i <= prefix.len() <= chars.len(),
            prefix@ == DIR_PREFIX@,
            chars@ == name@,
            forall|k: int| 0 <= k < i ==> chars@[k] == prefix@[k],
        decreases prefix.len() - i,
    {
        if chars[i] != prefix[i] {
            assert(chars@.subrange(0, prefix.len() as int)[i as int] != prefix@[i as int]);
            return None;
        }
        i += 1;
    }
    assert(prefix@ =~= chars@.subrange(0, prefix.len() as int));
    let parts = split_on_dots(&chars, prefix.len());
    if parts.len() != 3 {
        return None;
    }
    let a = parse_number(&parts[0]);
    let b = parse_number(&parts[1]);
    let c = parse_number(&parts[2]);
    match (a, b, c) {
        (Some(a), Some(b), Some(c)) => Some(Version { major: a, minor: b, patch: c }),
        _ => None,
    }
}

/// The decimal digit for `d`, which is below ten.
pub open spec fn digit_char(d: nat) -> char {
    if d == 0 { '0' } else if d == 1 { '1' } else if d == 2 { '2' } else if d == 3 { '3' }
    else if d == 4 { '4' } else if d == 5 { '5' } else if d == 6 { '6' } else if d == 7 { '7' }
    else if d == 8 { '8' } else { '9' }
}

/// The shortest decimal writing of `n`.
pub open spec fn decimal(n: nat) -> Seq<char>
    decreases n,
{
    if n < 10 {
        seq![digit_char(n)]
    } else {
        decimal(n / 10).push(digit_char(n % 10))
    }
}

/// The name of the install directory for `v`.
pub open spec fn dir_name_of(v: Version) -> Seq<char> {
    DIR_PREFIX@ + decimal(v.major as nat) + seq!['.'] + decimal(v.minor as nat) + seq!['.']
        + decimal(v.patch as nat)
}

proof fn lemma_digit_char(d: nat)
    requires
        d < 10,
    ensures
        is_digit(digit_char(d)),
        digit_value(digit_char(d)) == d,
{
}

proof fn lemma_decimal(n: nat)
    ensures
        decimal(n).len() > 0,
        all_digits(decimal(n)),
        digits_value(decimal(n)) == n,
    decreases n,
{
    lemma_digit_char(n % 10);
    if n < 10 {
        assert(decimal(n).drop_last() =~= Seq::<char>::empty());
        assert(digits_value(Seq::<char>::empty()) == 0);
    } else {
        lemma_decimal(n / 10);
        assert(decimal(n).drop_last() =~= decimal(n / 10));
        assert(n == (n / 10) * 10 + n % 10) by (nonlinear_arith);
    }
}

proof fn lemma_number_of_decimal(n: nat)
    requires
        n <= u32::MAX,
    ensures
        number_of(decimal(n)) == Some(n as u32),
        forall|i: int| 0 <= i < decimal(n).len() ==> #[trigger] decimal(n)[i] != '.',
{
    lemma_decimal(n);
    assert(is_digit(decimal(n)[0]));
    assert(unsigned_body(decimal(n)) == decimal(n));
    assert forall|i: int| 0 <= i < decimal(n).len() implies #[trigger] decimal(n)[i] != '.' by {
        assert(is_digit(decimal(n)[i]));
    }
}

proof fn lemma_scan_plain(x: Seq<char>, y: Seq<char>)
    requires
        forall|i: int| 0 <= i < y.len() ==> #[trigger] y[i] != '.',
    ensures
        scan_dots(x + y) == (scan_dots(x).0, scan_dots(x).1 + y),
    decreases y.len(),
{
    if y.len() == 0 {
        assert(x + y =~= x);
        assert(scan_dots(x).1 + y =~= scan_dots(x).1);
    } else {
        assert((x + y).drop_last() =~= x + y.drop_last());
        assert(y[y.len() - 1] != '.');
        lemma_scan_plain(x, y.drop_last());
        assert((scan_dots(x).1 + y.drop_last()).push(y.last()) =~= scan_dots(x).1 + y);
    }
}

proof fn lemma_scan_dot(x: Seq<char>)
    ensures
        scan_dots(x + seq!['.']) == (scan_dots(x).0.push(scan_dots(x).1), Seq::<char>::empty()),
{
    assert((x + seq!['.']).drop_last() =~= x);
}

/// Reading back the name of the install directory for any version gives
/// that same version.
pub proof fn lemma_dir_name_round_trip(v: Version)
    ensures
        version_of_dir(dir_name_of(v)) == Some(v),
{
    let a = decimal(v.major as nat);
    let b = decimal(v.minor as nat);
    let c = decimal(v.patch as nat);
    lemma_number_of_decimal(v.major as nat);
    lemma_number_of_decimal(v.minor as nat);
    lemma_number_of_decimal(v.patch as nat);
    let e = Seq::<char>::empty();
    let rest = a + seq!['.'] + b + seq!['.'] + c;
    assert(dir_name_of(v) =~= DIR_PREFIX@ + rest);
    assert(DIR_PREFIX@ =~= dir_name_of(v).subrange(0, DIR_PREFIX@.len() as int));
    assert(dir_name_of(v).skip(DIR_PREFIX@.len() as int) =~= rest);
    lemma_scan_plain(e, a);
    assert(e + a =~= a);
    lemma_scan_dot(a);
    lemma_scan_plain(a + seq!['.'], b);
    lemma_scan_dot(a + seq!['.'] + b);
    lemma_scan_plain(a + seq!['.'] + b + seq!['.'], c);
    assert(e + b =~= b);
    assert(e + c =~= c);
    let parts = split_dots(rest);
    assert(parts =~= seq![a, b, c]);
}

} // verus!

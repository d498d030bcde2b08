//! Small text helpers: characters of a string and building strings.

use vstd::prelude::*;

verus! {

/// The characters of `s`, in order.
pub fn chars_of(s: &str) -> (r: Vec<char>)
    ensures
        r@ == s@,
{
    let mut r: Vec<char> = Vec::new();
    for c in it: s.chars()
        invariant
            r@ == it.seq().take(it.index() as int),
            it.seq() == s@,
    {
        r.push(c);
    }
    r
}


/// `String::push`: appends one character.
#[verifier::external_body]
pub(crate) fn push_char(s: &mut String, c: char)
    ensures
        final(s)@ == old(s)@.push(c),
{
    s.push(c);
}

/// A string made of the given characters.
pub fn string_of(chars: &Vec<char>) -> (r: String)
    ensures
        r@ == chars@,
{
    let mut r = String::new();
    let n = chars.len();
    for i in 0..n
        invariant
            n == chars.len(),
            r@ == chars@.take(i as int),
    {
        push_char(&mut r, chars[i]);
        assert(chars@.take(i + 1) =~= chars@.take(i as int).push(chars@[i as int]));
    }
    assert(chars@.take(chars.len() as int) =~= chars@);
    r
}

/// `a` followed by `b`.
pub fn concat(a: &str, b: &str) -> (r: String)
    ensures
        r@ == a@ + b@,
{
    let mut v = chars_of(a);
    let w = chars_of(b);
    let ghost head = v@;
    let mut i: usize = 0;
    while i < w.len()
        invariant
            0 <= i <= w.len(),
            w@ == b@,
            v@ == head + w@.take(i as int),
        decreases w.len() - i,
    {
        v.push(w[i]);
        assert(w@.take(i + 1) =~= w@.take(i as int).push(w@[i as int]));
        i += 1;
    }
    assert(w@.take(w.len() as int) =~= w@);
    string_of(&v)
}

/// `a` comes before `b` in the order of `str`: character by character,
/// a proper prefix first.
pub open spec fn seq_lt(a: Seq<char>, b: Seq<char>) -> bool
    decreases a.len(),
{
    if a.len() == 0 {
        b.len() > 0
    } else if b.len() == 0 {
        false
    } else if a[0] != b[0] {
        (a[0] as int) < (b[0] as int)
    } else {
        seq_lt(a.drop_first(), b.drop_first())
    }
}

pub proof fn lemma_seq_lt_irreflexive(a: Seq<char>)
    ensures
        !seq_lt(a, a),
    decreases a.len(),
{
    if a.len() > 0 {
        lemma_seq_lt_irreflexive(a.drop_first());
    }
}

pub proof fn lemma_seq_lt_transitive(a: Seq<char>, b: Seq<char>, c: Seq<char>)
    requires
        seq_lt(a, b),
        seq_lt(b, c),
    ensures
        seq_lt(a, c),
    decreases a.len(),
{
    if a.len() > 0 && b.len() > 0 && c.len() > 0 && a[0] == b[0] && b[0] == c[0] {
        lemma_seq_lt_transitive(a.drop_first(), b.drop_first(), c.drop_first());
    }
}

pub proof fn lemma_seq_lt_total(a: Seq<char>, b: Seq<char>)
    ensures
        seq_lt(a, b) || seq_lt(b, a) || a == b,
    decreases a.len(),
{
    if a.len() > 0 && b.len() > 0 && a[0] == b[0] {
        lemma_seq_lt_total(a.drop_first(), b.drop_first());
        if a.drop_first() == b.drop_first() {
            assert(a =~= seq![a[0]] + a.drop_first());
            assert(b =~= seq![b[0]] + b.drop_first());
        }
    } else if a.len() == 0 && b.len() == 0 {
        assert(a =~= b);
    }
}

/// The two strings hold the same characters.
pub fn str_eq(a: &str, b: &str) -> (r: bool)
    ensures
        r == (a@ == b@),
{
    let x = chars_of(a);
    let y = chars_of(b);
    if x.len() != y.len() {
        return false;
    }
    let mut i: usize = 0;
    while i < x.len()
        invariant
            x.len() == y.len(),
            x@ == a@,
            y@ == b@,
            0 <= i <= x.len(),
            forall|k: int| 0 <= k < i ==> x@[k] == y@[k],
        decreases x.len() - i,
    {
        if x[i] != y[i] {
            return false;
        }
        i = i + 1;
    }
    assert(x@ =~= y@);
    true
}

/// `a < b` in the order of `str`.
pub fn str_lt(a: &str, b: &str) -> (r: bool)
    ensures
        r == seq_lt(a@, b@),
{
    let x = chars_of(a);
    let y = chars_of(b);
    let mut i: usize = 0;
    assert(x@.skip(0) =~= x@);
    assert(y@.skip(0) =~= y@);
    while i < x.len() && i < y.len() && x[i] == y[i]
        invariant
            0 <= i <= x.len(),
            i <= y.len(),
            x@ == a@,
            y@ == b@,
            seq_lt(a@, b@) == seq_lt(x@.skip(i as int), y@.skip(i as int)),
        decreases x.len() - i,
    {
        let ghost xs = x@.skip(i as int);
        let ghost ys = y@.skip(i as int);
        assert(xs.drop_first() =~= x@.skip(i + 1));
        assert(ys.drop_first() =~= y@.skip(i + 1));
        i = i + 1;
    }
    if i == x.len() {
        i < y.len()
    } else if i == y.len() {
        false
    } else {
        x[i] < y[i]
    }
}


/// Unicode `White_Space`, the characters that `char::is_whitespace`
/// accepts and `str::trim` removes.
pub open spec fn is_ws(c: char) -> bool {
    let u = c as u32;
    (0x09 <= u <= 0x0d) || u == 0x20 || u == 0x85 || u == 0xa0 || u == 0x1680 || (0x2000 <= u
        <= 0x200a) || u == 0x2028 || u == 0x2029 || u == 0x202f || u == 0x205f || u == 0x3000
}

pub fn is_whitespace(c: char) -> (r: bool)
    ensures
        r == is_ws(c),
{
    let u = c as u32;
    (0x09 <= u && u <= 0x0d) || u == 0x20 || u == 0x85 || u == 0xa0 || u == 0x1680 || (0x2000 <= u
        && u <= 0x200a) || u == 0x2028 || u == 0x2029 || u == 0x202f || u == 0x205f || u == 0x3000
}

/// Index of the first character that is not whitespace (the length if none).
pub open spec fn trim_start_at(s: Seq<char>, i: int) -> int
    decreases s.len() - i,
{
    if i >= s.len() || i < 0 {
        s.len() as int
    } else if is_ws(s[i]) {
        trim_start_at(s, i + 1)
    } else {
        i
    }
}

/// One past the last character at or after `lo` that is not whitespace
/// (`lo` if none), scanning back from `j`.
pub open spec fn trim_end_at(s: Seq<char>, lo: int, j: int) -> int
    decreases j - lo,
{
    if j <= lo {
        lo
    } else if is_ws(s[j - 1]) {
        trim_end_at(s, lo, j - 1)
    } else {
        j
    }
}

/// `str::trim`: leading and trailing whitespace removed.
pub open spec fn trim_spec(s: Seq<char>) -> Seq<char> {
    let a = trim_start_at(s, 0);
    s.subrange(a, trim_end_at(s, a, s.len() as int))
}

proof fn lemma_trim_start_range(s: Seq<char>, i: int)
    requires
        0 <= i <= s.len(),
    ensures
        i <= trim_start_at(s, i) <= s.len(),
    decreases s.len() - i,
{
    if i < s.len() && is_ws(s[i]) {
        lemma_trim_start_range(s, i + 1);
    }
}

proof fn lemma_trim_end_range(s: Seq<char>, lo: int, j: int)
    requires
        0 <= lo <= j <= s.len(),
    ensures
        lo <= trim_end_at(s, lo, j) <= j,
    decreases j - lo,
{
    if j > lo && is_ws(s[j - 1]) {
        lemma_trim_end_range(s, lo, j - 1);
    }
}

/// The characters of `s` without leading and trailing whitespace.
pub fn trim_chars(s: &str) -> (r: Vec<char>)
    ensures
        r@ == trim_spec(s@),
{
    let c = chars_of(s);
    let n = c.len();
    let mut a: usize = 0;
    while a < n && is_whitespace(c[a])
        invariant
            n == c.len(),
            c@ == s@,
            0 <= a <= n,
            trim_start_at(c@, a as int) == trim_start_at(c@, 0),
        decreases n - a,
    {
        a = a + 1;
    }
    let mut b: usize = n;
    proof {
        lemma_trim_start_range(c@, 0);
    }
    while b > a && is_whitespace(c[b - 1])
        invariant
            n == c.len(),
            c@ == s@,
            a == trim_start_at(c@, 0),
            a <= b <= n,
            trim_end_at(c@, a as int, b as int) == trim_end_at(c@, a as int, n as int),
        decreases b - a,
    {
        b = b - 1;
    }
    let mut r: Vec<char> = Vec::new();
    let mut k: usize = a;
    while k < b
        invariant
            a <= k <= b <= n,
            n == c.len(),
            r@ == c@.subrange(a as int, k as int),
        decreases b - k,
    {
        r.push(c[k]);
        assert(c@.subrange(a as int, k + 1) =~= c@.subrange(a as int, k as int).push(c@[k as int]));
        k = k + 1;
    }
    r
}

} // verus!

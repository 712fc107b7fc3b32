//! Character-level helpers over `String` and `Vec<char>`.
use vstd::prelude::*;

verus! {

/// The character of a decimal digit.
pub open spec fn digit_char(d: nat) -> char {
    (48 + d) as char
}

/// The decimal rendering of a natural number, most significant digit first,
/// with no leading zeros.
pub open spec fn decimal(n: nat) -> Seq<char>
    decreases n,
{
    if n < 10 {
        seq![digit_char(n)]
    } else {
        decimal(n / 10).push(digit_char(n % 10))
    }
}

/// Appends one character (`String::push`).
#[verifier::external_body]
pub(crate) fn push_char(s: &mut String, c: char)
    ensures
        final(s)@ == old(s)@.push(c),
{
    s.push(c);
}

fn digit(d: u64) -> (c: char)
    requires
        d < 10,
    ensures
        c == digit_char(d as nat),
{
    let b: u8 = 48u8 + (d as u8);
    b as char
}

/// The chars of a string slice, in order.
pub fn chars_of(s: &str) -> (v: Vec<char>)
    ensures
        v@ == s@,
{
    let mut v: Vec<char> = Vec::new();
    for c in it: s.chars()
        invariant
            v@ == it.seq().take(it.index() as int),
    {
        v.push(c);
    }
    v
}

/// The string made of `v[lo..hi]`.
pub fn string_of(v: &Vec<char>, lo: usize, hi: usize) -> (s: String)
    requires
        lo <= hi <= v@.len(),
    ensures
        s@ == v@.subrange(lo as int, hi as int),
{
    let mut s = String::new();
    let mut k: usize = lo;
    while k < hi
        invariant
            lo <= k <= hi <= v@.len(),
            s@ == v@.subrange(lo as int, k as int),
        decreases hi - k,
    {
        push_char(&mut s, v[k]);
        assert(v@.subrange(lo as int, k as int).push(v@[k as int]) =~= v@.subrange(lo as int, k + 1));
        k = k + 1;
    }
    s
}

/// Whether `s` begins with `prefix`.
pub fn starts_with(s: &str, prefix: &str) -> (r: bool)
    ensures
        r == prefix@.is_prefix_of(s@),
{
    let x = chars_of(s);
    let y = chars_of(prefix);
    if x.len() < y.len() {
        return false;
    }
    let n = y.len();
    let mut k: usize = 0;
    while k < n
        invariant
            x@ == s@,
            y@ == prefix@,
            n == y@.len(),
            n <= x@.len(),
            k <= n,
            forall|i: int| 0 <= i < k ==> x@[i] == y@[i],
        decreases n - k,
    {
        if x[k] != y[k] {
            assert(x@.subrange(0, n as int)[k as int] != y@[k as int]);
            return false;
        }
        k = k + 1;
    }
    assert(y@ =~= x@.subrange(0, n as int));
    true
}

/// Renders `n` in decimal.
pub fn decimal_string(n: u64) -> (s: String)
    ensures
        s@ == decimal(n as nat),
{
    let mut m: u64 = n;
    let mut low: Vec<char> = Vec::new();
    let ghost mut suffix: Seq<char> = Seq::empty();
    while m >= 10
        invariant
            decimal(n as nat) == decimal(m as nat) + suffix,
            low@.len() == suffix.len(),
            forall|i: int| 0 <= i < low@.len() ==> #[trigger] low@[i] == suffix[suffix.len() - 1 - i],
        decreases m,
    {
        let c = digit(m % 10);
        proof {
            assert(decimal(m as nat) == decimal((m / 10) as nat).push(c));
            assert(decimal((m / 10) as nat).push(c) + suffix =~= decimal((m / 10) as nat) + (seq![c] + suffix));
            suffix = seq![c] + suffix;
        }
        low.push(c);
        m = m / 10;
    }
    let mut s = String::new();
    push_char(&mut s, digit(m));
    let len = low.len();
    let mut k: usize = 0;
    while k < len
        invariant
            len == low@.len(),
            len == suffix.len(),
            k <= len,
            s@ == seq![digit_char(m as nat)] + suffix.take(k as int),
            forall|i: int| 0 <= i < low@.len() ==> #[trigger] low@[i] == suffix[suffix.len() - 1 - i],
        decreases len - k,
    {
        let c = low[len - 1 - k];
        assert(c == suffix[k as int]);
        push_char(&mut s, c);
        assert(suffix.take(k as int).push(c) =~= suffix.take(k + 1));
        k = k + 1;
    }
    assert(suffix.take(len as int) =~= suffix);
    s
}

} // verus!

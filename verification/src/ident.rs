//! Comment identifiers: the submission time in seconds, an underscore and
//! a random number.
use vstd::prelude::*;
use rand::RngExt;
use crate::text::{decimal, decimal_string, digit_char, push_char};

verus! {

/// The random part of a comment id is drawn from `0..NONCE_BOUND`.
pub const NONCE_BOUND: u64 = 999_999_999;

/// The id of a comment submitted at `time` (seconds since the Unix epoch)
/// with random part `nonce`: both in decimal, joined by an underscore.
pub open spec fn comment_id_of(time: nat, nonce: nat) -> Seq<char> {
    decimal(time) + seq!['_'] + decimal(nonce)
}

/// rand's `RngExt::random_range` on the thread-local generator of
/// `rand::rng()`: it returns some number of `0..bound`; which one is chance.
#[verifier::external_body]
fn random_below(bound: u64) -> (n: u64)
    requires
        bound > 0,
    ensures
        n < bound,
{
    rand::rng().random_range(0..bound)
}

/// The id of a comment submitted at `time` with random part `nonce`.
pub fn comment_id(time: u64, nonce: u64) -> (id: String)
    ensures
        id@ == comment_id_of(time as nat, nonce as nat),
{
    let mut id = decimal_string(time);
    push_char(&mut id, '_');
    let tail = decimal_string(nonce);
    id.append(tail.as_str());
    id
}

/// A fresh id for a comment submitted at `time`: its random part is drawn
/// from `0..NONCE_BOUND`.
pub fn new_comment_id(time: u64) -> (id: String)
    ensures
        exists|n: nat| n < NONCE_BOUND && id@ == #[trigger] comment_id_of(time as nat, n),
{
    let nonce = random_below(NONCE_BOUND);
    let id = comment_id(time, nonce);
    assert(id@ == comment_id_of(time as nat, nonce as nat));
    id
}

/// Whether `c` is one of the ten decimal digits.
pub open spec fn is_digit(c: char) -> bool {
    '0' <= c <= '9'
}

proof fn lemma_digit_char(d: nat)
    requires
        d < 10,
    ensures
        is_digit(digit_char(d)),
        digit_char(d) as int == 48 + d,
{
}

proof fn lemma_decimal_digits(n: nat)
    ensures
        decimal(n).len() >= 1,
        n >= 10 ==> decimal(n).len() >= 2,
        forall|k: int| 0 <= k < decimal(n).len() ==> is_digit(#[trigger] decimal(n)[k]),
    decreases n,
{
    if n < 10 {
        lemma_digit_char(n);
    } else {
        lemma_decimal_digits(n / 10);
        lemma_digit_char(n % 10);
        assert forall|k: int| 0 <= k < decimal(n).len() implies is_digit(#[trigger] decimal(n)[k]) by {
            if k < decimal(n / 10).len() {
                assert(decimal(n)[k] == decimal(n / 10)[k]);
            }
        }
    }
}

/// Different numbers have different decimal renderings.
pub proof fn law_decimal_injective(a: nat, b: nat)
    requires
        decimal(a) == decimal(b),
    ensures
        a == b,
    decreases a,
{
    lemma_decimal_digits(a);
    lemma_decimal_digits(b);
    if a < 10 {
        if b >= 10 {
            assert(decimal(b).len() >= 2);
        }
        lemma_digit_char(a);
        lemma_digit_char(b);
        assert(decimal(a)[0] == digit_char(a));
        assert(decimal(b)[0] == digit_char(b));
    } else {
        if b < 10 {
            assert(decimal(a).len() >= 2);
        }
        lemma_digit_char(a % 10);
        lemma_digit_char(b % 10);
        assert(decimal(a).last() == digit_char(a % 10));
        assert(decimal(b).last() == digit_char(b % 10));
        assert(decimal(a / 10) =~= decimal(a).drop_last());
        assert(decimal(b / 10) =~= decimal(b).drop_last());
        law_decimal_injective(a / 10, b / 10);
    }
}

/// Two submissions get the same comment id only if they agree on both the
/// time and the random part; so distinct submissions use distinct branches.
pub proof fn law_comment_id_injective(t1: nat, n1: nat, t2: nat, n2: nat)
    requires
        comment_id_of(t1, n1) == comment_id_of(t2, n2),
    ensures
        t1 == t2,
        n1 == n2,
{
    let s1 = comment_id_of(t1, n1);
    let s2 = comment_id_of(t2, n2);
    let l1 = decimal(t1).len() as int;
    let l2 = decimal(t2).len() as int;
    lemma_decimal_digits(t1);
    lemma_decimal_digits(t2);
    if l1 < l2 {
        assert(s1[l1] == '_');
        assert(s2[l1] == decimal(t2)[l1]);
        assert(is_digit(decimal(t2)[l1]));
    } else if l2 < l1 {
        assert(s2[l2] == '_');
        assert(s1[l2] == decimal(t1)[l2]);
        assert(is_digit(decimal(t1)[l2]));
    }
    assert(decimal(t1) =~= s1.take(l1));
    assert(decimal(t2) =~= s2.take(l2));
    law_decimal_injective(t1, t2);
    assert(decimal(n1) =~= s1.skip(l1 + 1));
    assert(decimal(n2) =~= s2.skip(l2 + 1));
    law_decimal_injective(n1, n2);
}

/// The number that the decimal digits `s` spell, most significant first.
pub open spec fn digits_value(s: Seq<char>) -> int
    decreases s.len(),
{
    if s.len() == 0 {
        0
    } else {
        digits_value(s.drop_last()) * 10 + (s.last() as int - 48)
    }
}

/// The decimal rendering of `n` is made of digits only, spells `n`, and
/// has no leading zero.
pub proof fn law_decimal_reads_back(n: nat)
    ensures
        forall|k: int| 0 <= k < decimal(n).len() ==> is_digit(#[trigger] decimal(n)[k]),
        digits_value(decimal(n)) == n,
        decimal(n).len() > 1 ==> decimal(n)[0] != '0',
    decreases n,
{
    lemma_decimal_digits(n);
    if n < 10 {
        lemma_digit_char(n);
        assert(decimal(n).drop_last() =~= Seq::<char>::empty());
        assert(digits_value(Seq::<char>::empty()) == 0);
        assert(decimal(n).last() == digit_char(n));
    } else {
        law_decimal_reads_back(n / 10);
        assert(n == (n / 10) * 10 + n % 10);
        lemma_digit_char(n % 10);
        assert(decimal(n).drop_last() =~= decimal(n / 10));
        assert(decimal(n).last() == digit_char(n % 10));
        assert(digits_value(decimal(n)) == digits_value(decimal(n / 10)) * 10 + (n % 10));
        assert(decimal(n)[0] == decimal(n / 10)[0]);
        if decimal(n / 10).len() == 1 {
            lemma_decimal_digits(n / 10);
            lemma_digit_char(n / 10);
        }
    }
}

/// A comment id is the decimal time, one underscore, and the decimal random
/// part: it splits at its only underscore into the digits of `time` and
/// the digits of `nonce`.
pub proof fn law_comment_id_parts(time: nat, nonce: nat)
    ensures
        ({
            let id = comment_id_of(time, nonce);
            exists|k: int|
                0 <= k < id.len() && #[trigger] id[k] == '_' && digits_value(id.take(k)) == time
                    && digits_value(id.skip(k + 1)) == nonce && forall|j: int|
                    0 <= j < id.len() && j != k ==> is_digit(#[trigger] id[j])
        }),
{
    let id = comment_id_of(time, nonce);
    let k = decimal(time).len() as int;
    law_decimal_reads_back(time);
    law_decimal_reads_back(nonce);
    assert(id.take(k) =~= decimal(time));
    assert(id.skip(k + 1) =~= decimal(nonce));
    assert(id[k] == '_');
    assert forall|j: int| 0 <= j < id.len() && j != k implies is_digit(#[trigger] id[j]) by {
        if j < k {
            assert(id[j] == decimal(time)[j]);
        } else {
            assert(id[j] == decimal(nonce)[j - k - 1]);
        }
    }
}

} // verus!

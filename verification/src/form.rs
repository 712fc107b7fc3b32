//! Decoding of `application/x-www-form-urlencoded` request bodies, the
//! format in which a browser submits the comment form.
use vstd::prelude::*;
use vstd::string::*;
use vstd::utf8::*;
use crate::comment::Post;

verus! {

/// Whether `b` is an ASCII hexadecimal digit.
pub open spec fn is_hex(b: u8) -> bool {
    (48 <= b <= 57) || (65 <= b <= 70) || (97 <= b <= 102)
}

/// The value of the hexadecimal digit `b`.
pub open spec fn hex_value(b: u8) -> nat
    recommends
        is_hex(b),
{
    if 48 <= b <= 57 {
        (b - 48) as nat
    } else if 65 <= b <= 70 {
        (b - 55) as nat
    } else {
        (b - 87) as nat
    }
}

/// Decodes one name or value: `+` stands for a space, `%` followed by two
/// hexadecimal digits for the byte they spell, and every other byte
/// (a `%` without two hex digits after it too) for itself.
pub open spec fn form_decode(s: Seq<u8>) -> Seq<u8>
    decreases s.len(),
{
    if s.len() == 0 {
        seq![]
    } else if s[0] == 37 && s.len() >= 3 && is_hex(s[1]) && is_hex(s[2]) {
        seq![(hex_value(s[1]) * 16 + hex_value(s[2])) as u8] + form_decode(s.skip(3))
    } else if s[0] == 43 {
        seq![32u8] + form_decode(s.skip(1))
    } else {
        seq![s[0]] + form_decode(s.skip(1))
    }
}

/// The index of the first `b` in `s`, if there is one.
pub open spec fn find_byte(s: Seq<u8>, b: u8) -> Option<int>
    decreases s.len(),
{
    if s.len() == 0 {
        None
    } else if s[0] == b {
        Some(0)
    } else {
        match find_byte(s.skip(1), b) {
            Some(i) => Some(i + 1),
            None => None,
        }
    }
}

/// The name and value that one `&`-separated piece stands for: the piece is
/// split at its first `=` (a piece without one has an empty value), and both
/// sides are decoded.
pub open spec fn form_pair(piece: Seq<u8>) -> (Seq<u8>, Seq<u8>) {
    match find_byte(piece, 61) {
        Some(k) => (form_decode(piece.take(k)), form_decode(piece.skip(k + 1))),
        None => (form_decode(piece), seq![]),
    }
}

/// The name-value pairs of a form body, in order: the body is split at
/// every `&` and empty pieces are skipped.
pub open spec fn form_pairs(s: Seq<u8>) -> Seq<(Seq<u8>, Seq<u8>)>
    decreases s.len(),
{
    match find_byte(s, 38) {
        None => if s.len() == 0 {
            seq![]
        } else {
            seq![form_pair(s)]
        },
        Some(i) => {
            proof {
                lemma_find_byte_bounds(s, 38);
            }
            (if i == 0 {
                seq![]
            } else {
                seq![form_pair(s.take(i))]
            }) + form_pairs(s.skip(i + 1))
        },
    }
}

/// How many pairs of `ps` have the name `key`.
pub open spec fn occurrences(ps: Seq<(Seq<u8>, Seq<u8>)>, key: Seq<u8>) -> nat
    decreases ps.len(),
{
    if ps.len() == 0 {
        0
    } else {
        occurrences(ps.drop_last(), key) + if ps.last().0 == key {
            1nat
        } else {
            0nat
        }
    }
}

/// The value of the last pair of `ps` with the name `key`; empty if there
/// is none.
pub open spec fn value_of(ps: Seq<(Seq<u8>, Seq<u8>)>, key: Seq<u8>) -> Seq<u8>
    decreases ps.len(),
{
    if ps.len() == 0 {
        seq![]
    } else if ps.last().0 == key {
        ps.last().1
    } else {
        value_of(ps.drop_last(), key)
    }
}

/// Text without `%` and `+` is sent as it is: decoding leaves it unchanged.
pub proof fn law_plain_text_unchanged(s: Seq<u8>)
    requires
        forall|k: int| 0 <= k < s.len() ==> s[k] != 37 && s[k] != 43,
    ensures
        form_decode(s) == s,
    decreases s.len(),
{
    if s.len() > 0 {
        let t = s.skip(1);
        assert forall|k: int| 0 <= k < t.len() implies t[k] != 37 && t[k] != 43 by {
            assert(t[k] == s[k + 1]);
        }
        law_plain_text_unchanged(t);
        assert(seq![s[0]] + t =~= s);
    }
}

/// Bounds and meaning of the index that `find_byte` gives.
pub proof fn lemma_find_byte_bounds(s: Seq<u8>, b: u8)
    ensures
        find_byte(s, b) matches Some(i) ==> 0 <= i < s.len() && s[i] == b && forall|k: int|
            0 <= k < i ==> s[k] != b,
        find_byte(s, b) is None ==> forall|k: int| 0 <= k < s.len() ==> s[k] != b,
    decreases s.len(),
{
    if s.len() > 0 && s[0] != b {
        lemma_find_byte_bounds(s.skip(1), b);
        if find_byte(s, b) is None {
            assert forall|k: int| 0 <= k < s.len() implies s[k] != b by {
                if k > 0 {
                    assert(s[k] == s.skip(1)[k - 1]);
                }
            }
        } else {
            let i = find_byte(s, b)->0;
            assert forall|k: int| 0 <= k < i implies s[k] != b by {
                if k > 0 {
                    assert(s[k] == s.skip(1)[k - 1]);
                }
            }
            assert(s[i] == s.skip(1)[i - 1]);
        }
    }
}

proof fn lemma_find_byte_at(s: Seq<u8>, b: u8, i: int)
    requires
        0 <= i <= s.len(),
        forall|k: int| 0 <= k < i ==> s[k] != b,
        i == s.len() || s[i] == b,
    ensures
        i < s.len() ==> find_byte(s, b) == Some(i),
        i == s.len() ==> find_byte(s, b) is None,
{
    lemma_find_byte_bounds(s, b);
    match find_byte(s, b) {
        Some(j) => {
            if j < i {
                assert(s[j] != b);
            }
            if i < j {
                assert(s[i] != b);
            }
        },
        None => {},
    }
}

/// Finds the first `b` in `v[lo..hi]`; returns `hi` when there is none.
fn find_in(v: &Vec<u8>, lo: usize, hi: usize, b: u8) -> (j: usize)
    requires
        lo <= hi <= v@.len(),
    ensures
        lo <= j <= hi,
        j < hi ==> find_byte(v@.subrange(lo as int, hi as int), b) == Some(j - lo),
        j == hi ==> find_byte(v@.subrange(lo as int, hi as int), b) is None,
{
    let mut j = lo;
    while j < hi && v[j] != b
        invariant
            lo <= j <= hi <= v@.len(),
            forall|k: int| lo <= k < j ==> v@[k] != b,
        decreases hi - j,
    {
        j = j + 1;
    }
    proof {
        let t = v@.subrange(lo as int, hi as int);
        assert forall|k: int| 0 <= k < j - lo implies t[k] != b by {
            assert(t[k] == v@[k + lo]);
        }
        if j < hi {
            assert(t[j - lo] == v@[j as int]);
        }
        lemma_find_byte_at(t, b, j - lo);
    }
    j
}

fn hex_digit(b: u8) -> (r: Option<u8>)
    ensures
        r is Some <==> is_hex(b),
        r matches Some(d) ==> d == hex_value(b) && d < 16,
{
    if 48 <= b && b <= 57 {
        Some(b - 48)
    } else if 65 <= b && b <= 70 {
        Some(b - 55)
    } else if 97 <= b && b <= 102 {
        Some(b - 87)
    } else {
        None
    }
}

/// Decodes `v[lo..hi]` as one name or value.
pub fn form_decode_range(v: &Vec<u8>, lo: usize, hi: usize) -> (out: Vec<u8>)
    requires
        lo <= hi <= v@.len(),
    ensures
        out@ == form_decode(v@.subrange(lo as int, hi as int)),
{
    let mut out: Vec<u8> = Vec::new();
    let mut i = lo;
    while i < hi
        invariant
            lo <= i <= hi <= v@.len(),
            out@ + form_decode(v@.subrange(i as int, hi as int)) == form_decode(
                v@.subrange(lo as int, hi as int),
            ),
        decreases hi - i,
    {
        let ghost t = v@.subrange(i as int, hi as int);
        let c = v[i];
        let mut step: usize = 1;
        let mut byte = c;
        if c == 37 && hi - i >= 3 {
            let d1 = hex_digit(v[i + 1]);
            let d2 = hex_digit(v[i + 2]);
            if d1.is_some() && d2.is_some() {
                let x = d1.unwrap();
                let y = d2.unwrap();
                byte = x * 16 + y;
                step = 3;
            }
        } else if c == 43 {
            byte = 32;
        }
        proof {
            assert(t[0] == c);
            if hi - i >= 3 {
                assert(t[1] == v@[i + 1]);
                assert(t[2] == v@[i + 2]);
            }
            assert(t.skip(step as int) =~= v@.subrange(i + step, hi as int));
            assert(form_decode(t) == seq![byte] + form_decode(t.skip(step as int)));
            assert(out@.push(byte) + form_decode(t.skip(step as int)) =~= out@ + (seq![byte]
                + form_decode(t.skip(step as int))));
        }
        out.push(byte);
        i = i + step;
    }
    assert(v@.subrange(hi as int, hi as int) =~= Seq::<u8>::empty());
    assert(out@ + Seq::<u8>::empty() =~= out@);
    out
}

/// The name-value pairs of `ps` as byte sequences.
pub open spec fn pairs_view(ps: Seq<(Vec<u8>, Vec<u8>)>) -> Seq<(Seq<u8>, Seq<u8>)> {
    ps.map_values(|p: (Vec<u8>, Vec<u8>)| (p.0@, p.1@))
}

fn form_pair_range(v: &Vec<u8>, lo: usize, hi: usize) -> (p: (Vec<u8>, Vec<u8>))
    requires
        lo <= hi <= v@.len(),
    ensures
        (p.0@, p.1@) == form_pair(v@.subrange(lo as int, hi as int)),
{
    let k = find_in(v, lo, hi, 61);
    let ghost t = v@.subrange(lo as int, hi as int);
    if k < hi {
        assert(t.take(k - lo) =~= v@.subrange(lo as int, k as int));
        assert(t.skip(k - lo + 1) =~= v@.subrange(k + 1, hi as int));
        (form_decode_range(v, lo, k), form_decode_range(v, k + 1, hi))
    } else {
        (form_decode_range(v, lo, hi), Vec::new())
    }
}

/// The name-value pairs of the form body `body`, in order.
pub fn form_pairs_of(body: &Vec<u8>) -> (ps: Vec<(Vec<u8>, Vec<u8>)>)
    ensures
        pairs_view(ps@) == form_pairs(body@),
{
    let n = body.len();
    let mut pos: usize = 0;
    let mut ps: Vec<(Vec<u8>, Vec<u8>)> = Vec::new();
    assert(body@.skip(0) =~= body@);
    assert(pairs_view(ps@) =~= Seq::<(Seq<u8>, Seq<u8>)>::empty());
    assert(pairs_view(ps@) + form_pairs(body@) =~= form_pairs(body@));
    while pos < n
        invariant
            n == body@.len(),
            pos <= n,
            pairs_view(ps@) + form_pairs(body@.skip(pos as int)) == form_pairs(body@),
        decreases n - pos,
    {
        let j = find_in(body, pos, n, 38);
        let ghost t = body@.subrange(pos as int, n as int);
        let ghost before = pairs_view(ps@);
        assert(t =~= body@.skip(pos as int));
        if j > pos {
            let p = form_pair_range(body, pos, j);
            ps.push(p);
            assert(pairs_view(ps@) =~= before.push((p.0@, p.1@)));
        }
        proof {
            if j < n {
                assert(t.take(j - pos) =~= body@.subrange(pos as int, j as int));
                assert(t.skip(j - pos + 1) =~= body@.skip(j + 1));
                assert(before + form_pairs(t) =~= pairs_view(ps@) + form_pairs(body@.skip(j + 1)));
            } else {
                assert(t.take(j - pos) =~= t);
                assert(body@.skip(n as int) =~= Seq::<u8>::empty());
                assert(form_pairs(body@.skip(n as int)) =~= Seq::<(Seq<u8>, Seq<u8>)>::empty());
                assert(before + form_pairs(t) =~= pairs_view(ps@) + form_pairs(body@.skip(n as int)));
            }
        }
        if j < n {
            pos = j + 1;
        } else {
            pos = n;
        }
    }
    assert(body@.skip(n as int) =~= Seq::<u8>::empty());
    assert(pairs_view(ps@) + Seq::<(Seq<u8>, Seq<u8>)>::empty() =~= pairs_view(ps@));
    ps
}

/// Whether the pairs `ps` give the field `key` a usable value: exactly
/// once when the field is required, at most once otherwise, and in UTF-8.
pub open spec fn field_ok(ps: Seq<(Seq<u8>, Seq<u8>)>, key: Seq<u8>, required: bool) -> bool {
    &&& if required {
        occurrences(ps, key) == 1
    } else {
        occurrences(ps, key) <= 1
    }
    &&& valid_utf8(value_of(ps, key))
}

/// Whether the form body `body` describes a comment: `path`, `message`,
/// `name` and `redirect_url` each given once, `url` at most once, all of
/// them valid UTF-8 once decoded. Other fields are ignored.
pub open spec fn form_accepts(body: Seq<u8>) -> bool {
    let ps = form_pairs(body);
    &&& field_ok(ps, "path".spec_bytes(), true)
    &&& field_ok(ps, "message".spec_bytes(), true)
    &&& field_ok(ps, "name".spec_bytes(), true)
    &&& field_ok(ps, "url".spec_bytes(), false)
    &&& field_ok(ps, "redirect_url".spec_bytes(), true)
}

/// The text that the form body `body` gives the field `key`; empty when
/// the field is absent.
pub open spec fn form_text(body: Seq<u8>, key: Seq<u8>) -> Seq<char> {
    decode_utf8(value_of(form_pairs(body), key))
}

/// `String::from_utf8`: the string that the bytes encode, or nothing when
/// they are not valid UTF-8.
#[verifier::external_body]
fn utf8_string(bytes: Vec<u8>) -> (r: Option<String>)
    ensures
        r is Some <==> valid_utf8(bytes@),
        r matches Some(s) ==> s@ == decode_utf8(bytes@),
{
    String::from_utf8(bytes).ok()
}

fn bytes_eq(a: &Vec<u8>, b: &[u8]) -> (r: bool)
    ensures
        r == (a@ == b@),
{
    if a.len() != b.len() {
        return false;
    }
    let n = a.len();
    let mut k: usize = 0;
    while k < n
        invariant
            n == a@.len(),
            n == b@.len(),
            k <= n,
            forall|i: int| 0 <= i < k ==> a@[i] == b@[i],
        decreases n - k,
    {
        if a[k] != b[k] {
            return false;
        }
        k = k + 1;
    }
    assert(a@ =~= b@);
    true
}

fn copy_bytes(v: &Vec<u8>) -> (out: Vec<u8>)
    ensures
        out@ == v@,
{
    let mut out: Vec<u8> = Vec::new();
    let n = v.len();
    let mut k: usize = 0;
    while k < n
        invariant
            n == v@.len(),
            k <= n,
            out@ == v@.take(k as int),
        decreases n - k,
    {
        out.push(v[k]);
        assert(v@.take(k as int).push(v@[k as int]) =~= v@.take(k + 1));
        k = k + 1;
    }
    assert(v@.take(n as int) =~= v@);
    out
}

/// How often `key` is named in `ps`, and the position of its last pair.
fn lookup(ps: &Vec<(Vec<u8>, Vec<u8>)>, key: &[u8]) -> (r: (usize, Option<usize>))
    ensures
        r.0 == occurrences(pairs_view(ps@), key@),
        r.1 is None <==> r.0 == 0,
        r.1 matches Some(i) ==> i < ps@.len() && ps@[i as int].1@ == value_of(pairs_view(ps@), key@),
        r.1 is None ==> value_of(pairs_view(ps@), key@) == Seq::<u8>::empty(),
{
    let ghost all = pairs_view(ps@);
    let n = ps.len();
    let mut count: usize = 0;
    let mut last: Option<usize> = None;
    let mut i: usize = 0;
    assert(all.take(0) =~= Seq::<(Seq<u8>, Seq<u8>)>::empty());
    while i < n
        invariant
            n == ps@.len(),
            all == pairs_view(ps@),
            i <= n,
            count <= i,
            count == occurrences(all.take(i as int), key@),
            last is None <==> count == 0,
            last matches Some(k) ==> k < i && ps@[k as int].1@ == value_of(all.take(i as int), key@),
            last is None ==> value_of(all.take(i as int), key@) == Seq::<u8>::empty(),
        decreases n - i,
    {
        let ghost pre = all.take(i as int);
        let ghost cur = all.take(i + 1);
        assert(cur.drop_last() =~= pre);
        assert(cur.last() == (ps@[i as int].0@, ps@[i as int].1@));
        if bytes_eq(&ps[i].0, key) {
            count = count + 1;
            last = Some(i);
        }
        i = i + 1;
    }
    assert(all.take(n as int) =~= all);
    (count, last)
}

/// The text of the field `key`, when `ps` gives it a usable value.
fn field_text(ps: &Vec<(Vec<u8>, Vec<u8>)>, key: &[u8], required: bool) -> (r: Option<String>)
    ensures
        r is Some <==> field_ok(pairs_view(ps@), key@, required),
        r matches Some(s) ==> s@ == decode_utf8(value_of(pairs_view(ps@), key@)),
{
    let (count, last) = lookup(ps, key);
    if count > 1 || (required && count == 0) {
        return None;
    }
    match last {
        Some(i) => utf8_string(copy_bytes(&ps[i].1)),
        None => {
            assert(valid_utf8(Seq::<u8>::empty()));
            assert(decode_utf8(Seq::<u8>::empty()) =~= Seq::<char>::empty());
            Some(String::new())
        },
    }
}

/// Reads a comment form submitted as `application/x-www-form-urlencoded`.
/// Returns nothing when the body does not describe a comment.
pub fn parse_form(body: &Vec<u8>) -> (r: Option<Post>)
    ensures
        r is Some <==> form_accepts(body@),
        r matches Some(p) ==> {
            &&& p.path@ == form_text(body@, "path".spec_bytes())
            &&& p.message@ == form_text(body@, "message".spec_bytes())
            &&& p.name@ == form_text(body@, "name".spec_bytes())
            &&& p.url@ == form_text(body@, "url".spec_bytes())
            &&& p.redirect_url@ == form_text(body@, "redirect_url".spec_bytes())
        },
{
    let ps = form_pairs_of(body);
    let path = field_text(&ps, "path".as_bytes(), true);
    let message = field_text(&ps, "message".as_bytes(), true);
    let name = field_text(&ps, "name".as_bytes(), true);
    let url = field_text(&ps, "url".as_bytes(), false);
    let redirect_url = field_text(&ps, "redirect_url".as_bytes(), true);
    match (path, message, name, url, redirect_url) {
        (Some(path), Some(message), Some(name), Some(url), Some(redirect_url)) => Some(
            Post { path, message, name, url, redirect_url },
        ),
        _ => None,
    }
}

/// The upper-case hexadecimal digit of `d` (below 16).
pub open spec fn hex_digit_char(d: nat) -> u8 {
    if d < 10 {
        (48 + d) as u8
    } else {
        (55 + d) as u8
    }
}

/// `%` and the two upper-case hexadecimal digits of `b`.
pub open spec fn escape_byte(b: u8) -> Seq<u8> {
    seq![37u8, hex_digit_char(b as nat / 16), hex_digit_char(b as nat % 16)]
}

/// Whether a browser sends the byte `b` of a form value as it is: ASCII
/// letters and digits, `*`, `-`, `.` and `_`.
pub open spec fn sent_as_is(b: u8) -> bool {
    (48 <= b <= 57) || (65 <= b <= 90) || (97 <= b <= 122) || b == 42 || b == 45 || b == 46 || b == 95
}

/// How a browser sends the byte `b` of a form value: as it is, a space as
/// `+`, every other byte escaped.
pub open spec fn encode_byte(b: u8) -> Seq<u8> {
    if sent_as_is(b) {
        seq![b]
    } else if b == 32 {
        seq![43u8]
    } else {
        escape_byte(b)
    }
}

/// The form encoding of the bytes `s` (`application/x-www-form-urlencoded`).
pub open spec fn form_encode(s: Seq<u8>) -> Seq<u8>
    decreases s.len(),
{
    if s.len() == 0 {
        seq![]
    } else {
        encode_byte(s[0]) + form_encode(s.skip(1))
    }
}

/// Every byte of `s` escaped as `%XX`.
pub open spec fn percent_encode(s: Seq<u8>) -> Seq<u8>
    decreases s.len(),
{
    if s.len() == 0 {
        seq![]
    } else {
        escape_byte(s[0]) + percent_encode(s.skip(1))
    }
}

proof fn lemma_hex_digit(d: nat)
    requires
        d < 16,
    ensures
        is_hex(hex_digit_char(d)),
        hex_value(hex_digit_char(d)) == d,
{
}

proof fn lemma_decode_escaped(b: u8, rest: Seq<u8>)
    ensures
        form_decode(escape_byte(b) + rest) == seq![b] + form_decode(rest),
{
    let x = escape_byte(b) + rest;
    let hi = b as nat / 16;
    let lo = b as nat % 16;
    lemma_hex_digit(hi);
    lemma_hex_digit(lo);
    assert(x[0] == 37u8);
    assert(x[1] == hex_digit_char(hi));
    assert(x[2] == hex_digit_char(lo));
    assert(hi * 16 + lo == b);
    assert(x.skip(3) =~= rest);
}

proof fn lemma_decode_one(b: u8, rest: Seq<u8>)
    requires
        b != 37,
    ensures
        form_decode(seq![b] + rest) == seq![if b == 43 { 32u8 } else { b }] + form_decode(rest),
{
    let x = seq![b] + rest;
    assert(x[0] == b);
    assert(x.skip(1) =~= rest);
}

/// Decoding undoes what a browser sends: the form encoding of any bytes
/// (letters, digits and `*-._` as they are, a space as `+`, every other
/// byte as `%XX`) decodes back to those bytes. A line break sent as
/// `%0D%0A` becomes the bytes 13 and 10.
pub proof fn law_decode_inverts_form_encoding(s: Seq<u8>)
    ensures
        form_decode(form_encode(s)) == s,
    decreases s.len(),
{
    if s.len() > 0 {
        let b = s[0];
        let rest = form_encode(s.skip(1));
        law_decode_inverts_form_encoding(s.skip(1));
        if sent_as_is(b) {
            lemma_decode_one(b, rest);
        } else if b == 32 {
            lemma_decode_one(43u8, rest);
        } else {
            lemma_decode_escaped(b, rest);
        }
        assert(seq![b] + s.skip(1) =~= s);
    }
}

/// Decoding undoes percent-encoding: bytes sent all as `%XX` decode back to
/// themselves, whatever their values.
pub proof fn law_decode_inverts_percent_encoding(s: Seq<u8>)
    ensures
        form_decode(percent_encode(s)) == s,
    decreases s.len(),
{
    if s.len() > 0 {
        law_decode_inverts_percent_encoding(s.skip(1));
        lemma_decode_escaped(s[0], percent_encode(s.skip(1)));
        assert(seq![s[0]] + s.skip(1) =~= s);
    }
}

/// Whether a form is accepted depends on its `url` field only through how
/// often it is given (at most once) and whether its value is UTF-8: any
/// value, the empty one too, is as good as any other. The four other
/// fields must be given exactly once, in UTF-8.
pub proof fn law_url_only_counted(body: Seq<u8>)
    ensures
        form_accepts(body) <==> {
            let ps = form_pairs(body);
            &&& occurrences(ps, "path".spec_bytes()) == 1
            &&& valid_utf8(value_of(ps, "path".spec_bytes()))
            &&& occurrences(ps, "message".spec_bytes()) == 1
            &&& valid_utf8(value_of(ps, "message".spec_bytes()))
            &&& occurrences(ps, "name".spec_bytes()) == 1
            &&& valid_utf8(value_of(ps, "name".spec_bytes()))
            &&& occurrences(ps, "redirect_url".spec_bytes()) == 1
            &&& valid_utf8(value_of(ps, "redirect_url".spec_bytes()))
            &&& occurrences(ps, "url".spec_bytes()) <= 1
            &&& valid_utf8(value_of(ps, "url".spec_bytes()))
        },
{
}

/// A form whose `url` field is left blank is accepted when its other fields
/// are, and gives an empty `url`.
pub proof fn law_blank_url_accepted(body: Seq<u8>)
    requires
        field_ok(form_pairs(body), "path".spec_bytes(), true),
        field_ok(form_pairs(body), "message".spec_bytes(), true),
        field_ok(form_pairs(body), "name".spec_bytes(), true),
        field_ok(form_pairs(body), "redirect_url".spec_bytes(), true),
        occurrences(form_pairs(body), "url".spec_bytes()) == 1,
        value_of(form_pairs(body), "url".spec_bytes()) == Seq::<u8>::empty(),
    ensures
        form_accepts(body),
        form_text(body, "url".spec_bytes()) == Seq::<char>::empty(),
{
    assert(valid_utf8(Seq::<u8>::empty()));
    assert(decode_utf8(Seq::<u8>::empty()) =~= Seq::<char>::empty());
}

/// The lower-case hexadecimal digit of `d` (below 16).
pub open spec fn hex_digit_lower(d: nat) -> u8 {
    if d < 10 {
        (48 + d) as u8
    } else {
        (87 + d) as u8
    }
}

/// An escape with lower-case hexadecimal digits decodes as one with
/// upper-case digits: `%` and the two digits of `b` give the byte `b`.
pub proof fn law_decode_lowercase_escape(b: u8, rest: Seq<u8>)
    ensures
        form_decode(seq![37u8, hex_digit_lower(b as nat / 16), hex_digit_lower(b as nat % 16)] + rest)
            == seq![b] + form_decode(rest),
{
    let x = seq![37u8, hex_digit_lower(b as nat / 16), hex_digit_lower(b as nat % 16)] + rest;
    let hi = b as nat / 16;
    let lo = b as nat % 16;
    assert(x[0] == 37u8);
    assert(x[1] == hex_digit_lower(hi));
    assert(x[2] == hex_digit_lower(lo));
    assert(hi * 16 + lo == b);
    assert(x.skip(3) =~= rest);
}

/// A `%` that is not followed by two hexadecimal digits stands for itself.
pub proof fn law_stray_percent_kept(c1: u8, c2: u8, rest: Seq<u8>)
    requires
        !((48 <= c1 <= 57) || (65 <= c1 <= 70) || (97 <= c1 <= 102)) || !((48 <= c2 <= 57) || (65 <= c2
            <= 70) || (97 <= c2 <= 102)),
    ensures
        form_decode(seq![37u8, c1, c2] + rest) == seq![37u8] + form_decode(seq![c1, c2] + rest),
{
    let x = seq![37u8, c1, c2] + rest;
    assert(x[0] == 37u8);
    assert(x[1] == c1);
    assert(x[2] == c2);
    assert(x.skip(1) =~= seq![c1, c2] + rest);
}

proof fn lemma_encoding_has_no_separator(x: Seq<u8>)
    ensures
        forall|k: int| 0 <= k < form_encode(x).len() ==> #[trigger] form_encode(x)[k] != 38 && form_encode(x)[k] != 61,
    decreases x.len(),
{
    if x.len() > 0 {
        lemma_encoding_has_no_separator(x.skip(1));
        let e = encode_byte(x[0]);
        let hi = x[0] as nat / 16;
        let lo = x[0] as nat % 16;
        assert forall|k: int| 0 <= k < form_encode(x).len() implies #[trigger] form_encode(x)[k] != 38
            && form_encode(x)[k] != 61 by {
            if k >= e.len() {
                assert(form_encode(x)[k] == form_encode(x.skip(1))[k - e.len()]);
            } else {
                assert(form_encode(x)[k] == e[k]);
            }
        }
    }
}

/// One name-value pair as a browser sends it: the encoded name, `=` and the
/// encoded value.
pub open spec fn encode_pair(p: (Seq<u8>, Seq<u8>)) -> Seq<u8> {
    form_encode(p.0) + seq![61u8] + form_encode(p.1)
}

/// A form as a browser sends it: its encoded pairs joined by `&`.
pub open spec fn serialize_form(ps: Seq<(Seq<u8>, Seq<u8>)>) -> Seq<u8>
    decreases ps.len(),
{
    if ps.len() == 0 {
        seq![]
    } else if ps.len() == 1 {
        encode_pair(ps[0])
    } else {
        encode_pair(ps[0]) + seq![38u8] + serialize_form(ps.skip(1))
    }
}

proof fn lemma_pair_round_trip(p: (Seq<u8>, Seq<u8>))
    ensures
        form_pair(encode_pair(p)) == p,
        forall|k: int| 0 <= k < encode_pair(p).len() ==> #[trigger] encode_pair(p)[k] != 38,
{
    let a = form_encode(p.0);
    let b = form_encode(p.1);
    let piece = encode_pair(p);
    lemma_encoding_has_no_separator(p.0);
    lemma_encoding_has_no_separator(p.1);
    assert forall|k: int| 0 <= k < a.len() implies piece[k] != 61 by {
        assert(piece[k] == a[k]);
    }
    assert(piece[a.len() as int] == 61u8);
    lemma_find_byte_at(piece, 61, a.len() as int);
    assert(piece.take(a.len() as int) =~= a);
    assert(piece.skip(a.len() as int + 1) =~= b);
    law_decode_inverts_form_encoding(p.0);
    law_decode_inverts_form_encoding(p.1);
    assert forall|k: int| 0 <= k < piece.len() implies #[trigger] piece[k] != 38 by {
        if k < a.len() {
            assert(piece[k] == a[k]);
        } else if k > a.len() {
            assert(piece[k] == b[k - a.len() - 1]);
        }
    }
}

/// What a browser sends is read back: the pairs of a form serialised as a
/// browser does (names and values encoded, `=` between, `&` between pairs)
/// are exactly the pairs it was made of, in order, whatever their bytes.
pub proof fn law_form_round_trip(ps: Seq<(Seq<u8>, Seq<u8>)>)
    ensures
        form_pairs(serialize_form(ps)) == ps,
    decreases ps.len(),
{
    if ps.len() == 1 {
        let piece = encode_pair(ps[0]);
        lemma_pair_round_trip(ps[0]);
        lemma_find_byte_at(piece, 38, piece.len() as int);
        assert(seq![form_pair(piece)] =~= ps);
    } else if ps.len() > 1 {
        let piece = encode_pair(ps[0]);
        let rest = serialize_form(ps.skip(1));
        let s = piece + seq![38u8] + rest;
        lemma_pair_round_trip(ps[0]);
        law_form_round_trip(ps.skip(1));
        assert forall|k: int| 0 <= k < piece.len() implies s[k] != 38 by {
            assert(s[k] == piece[k]);
        }
        assert(s[piece.len() as int] == 38u8);
        lemma_find_byte_at(s, 38, piece.len() as int);
        assert(s.take(piece.len() as int) =~= piece);
        assert(s.skip(piece.len() as int + 1) =~= rest);
        assert(piece.len() > 0);
        assert(seq![ps[0]] + ps.skip(1) =~= ps);
    } else {
        assert(form_pairs(Seq::<u8>::empty()) =~= Seq::<(Seq<u8>, Seq<u8>)>::empty());
        assert(ps =~= Seq::<(Seq<u8>, Seq<u8>)>::empty());
    }
}

/// `occurrences` counts the pairs with the name: the counts of two runs of
/// pairs add up, and a single pair counts once exactly when it has the name.
pub proof fn law_occurrences_count(ps: Seq<(Seq<u8>, Seq<u8>)>, qs: Seq<(Seq<u8>, Seq<u8>)>, key: Seq<u8>)
    ensures
        occurrences(ps + qs, key) == occurrences(ps, key) + occurrences(qs, key),
        occurrences(Seq::<(Seq<u8>, Seq<u8>)>::empty(), key) == 0,
        forall|v: Seq<u8>, n: Seq<u8>| #[trigger] occurrences(seq![(n, v)], key) == if n == key { 1nat } else { 0nat },
    decreases qs.len(),
{
    assert forall|v: Seq<u8>, n: Seq<u8>| #[trigger] occurrences(seq![(n, v)], key) == if n == key {
        1nat
    } else {
        0nat
    } by {
        assert(seq![(n, v)].drop_last() =~= Seq::<(Seq<u8>, Seq<u8>)>::empty());
        assert(occurrences(Seq::<(Seq<u8>, Seq<u8>)>::empty(), key) == 0);
        assert(seq![(n, v)].last() == (n, v));
    }
    if qs.len() == 0 {
        assert(ps + qs =~= ps);
    } else {
        law_occurrences_count(ps, qs.drop_last(), key);
        assert((ps + qs).drop_last() =~= ps + qs.drop_last());
        assert((ps + qs).last() == qs.last());
    }
}

/// A field given once has the value of its one pair; a field not given has
/// no pair and an empty value.
pub proof fn law_single_field(ps: Seq<(Seq<u8>, Seq<u8>)>, key: Seq<u8>)
    ensures
        occurrences(ps, key) == 0 <==> forall|i: int| 0 <= i < ps.len() ==> #[trigger] ps[i].0 != key,
        occurrences(ps, key) == 0 ==> value_of(ps, key) == Seq::<u8>::empty(),
        occurrences(ps, key) == 1 ==> exists|i: int|
            0 <= i < ps.len() && #[trigger] ps[i].0 == key && value_of(ps, key) == ps[i].1 && forall|j: int|
                0 <= j < ps.len() && j != i ==> #[trigger] ps[j].0 != key,
    decreases ps.len(),
{
    if ps.len() > 0 {
        let q = ps.drop_last();
        let l = ps.len() - 1;
        law_single_field(q, key);
        assert forall|i: int| 0 <= i < q.len() implies #[trigger] q[i] == ps[i] by {}
        if ps.last().0 == key {
            if occurrences(ps, key) == 1 {
                assert(occurrences(q, key) == 0);
                assert forall|j: int| 0 <= j < ps.len() && j != l implies #[trigger] ps[j].0 != key by {
                    assert(q[j] == ps[j]);
                }
                assert(ps[l].0 == key);
            }
            assert(ps[l].0 == key);
        } else {
            if occurrences(ps, key) == 1 {
                let i = choose|i: int|
                    0 <= i < q.len() && #[trigger] q[i].0 == key && value_of(q, key) == q[i].1 && forall|j: int|
                        0 <= j < q.len() && j != i ==> #[trigger] q[j].0 != key;
                assert(ps[i] == q[i]);
                assert forall|j: int| 0 <= j < ps.len() && j != i implies #[trigger] ps[j].0 != key by {
                    if j < l {
                        assert(q[j] == ps[j]);
                    }
                }
            }
            if occurrences(ps, key) == 0 {
                assert forall|i: int| 0 <= i < ps.len() implies #[trigger] ps[i].0 != key by {
                    if i < l {
                        assert(q[i] == ps[i]);
                    }
                }
            }
            if forall|i: int| 0 <= i < ps.len() ==> #[trigger] ps[i].0 != key {
                assert forall|i: int| 0 <= i < q.len() implies #[trigger] q[i].0 != key by {
                    assert(q[i] == ps[i]);
                }
            }
        }
        if forall|i: int| 0 <= i < ps.len() ==> #[trigger] ps[i].0 != key {
            assert(ps[l].0 != key);
        }
    }
}

proof fn lemma_push_pair(ps: Seq<(Seq<u8>, Seq<u8>)>, x: (Seq<u8>, Seq<u8>))
    ensures
        forall|key: Seq<u8>| #[trigger] occurrences(ps.push(x), key) == occurrences(ps, key) + if x.0 == key {
            1nat
        } else {
            0nat
        },
        forall|key: Seq<u8>| #[trigger] value_of(ps.push(x), key) == if x.0 == key {
            x.1
        } else {
            value_of(ps, key)
        },
{
    assert(ps.push(x).drop_last() =~= ps);
}

proof fn lemma_field_names_distinct()
    ensures
        "path".spec_bytes().len() == 4,
        "message".spec_bytes().len() == 7,
        "name".spec_bytes().len() == 4,
        "url".spec_bytes().len() == 3,
        "redirect_url".spec_bytes().len() == 12,
        "path".spec_bytes() != "name".spec_bytes(),
{
    reveal_strlit("path");
    reveal_strlit("message");
    reveal_strlit("name");
    reveal_strlit("url");
    reveal_strlit("redirect_url");
    is_ascii_chars_encode_utf8("path"@);
    is_ascii_chars_encode_utf8("message"@);
    is_ascii_chars_encode_utf8("name"@);
    is_ascii_chars_encode_utf8("url"@);
    is_ascii_chars_encode_utf8("redirect_url"@);
    assert("path".spec_bytes()[0] == 'p' as u8);
    assert("name".spec_bytes()[0] == 'n' as u8);
}

/// The pairs of a comment form as a browser fills it in: the five fields
/// with their texts in UTF-8.
pub open spec fn comment_form_pairs(
    path: Seq<char>,
    message: Seq<char>,
    name: Seq<char>,
    url: Seq<char>,
    redirect_url: Seq<char>,
) -> Seq<(Seq<u8>, Seq<u8>)> {
    seq![
        ("path".spec_bytes(), encode_utf8(path)),
        ("message".spec_bytes(), encode_utf8(message)),
        ("name".spec_bytes(), encode_utf8(name)),
        ("url".spec_bytes(), encode_utf8(url)),
        ("redirect_url".spec_bytes(), encode_utf8(redirect_url)),
    ]
}

/// The comment form that a browser sends is accepted and read back as it
/// was filled in, whatever the texts, a blank `url` included.
pub proof fn law_comment_form_read_back(
    path: Seq<char>,
    message: Seq<char>,
    name: Seq<char>,
    url: Seq<char>,
    redirect_url: Seq<char>,
)
    ensures
        ({
            let body = serialize_form(comment_form_pairs(path, message, name, url, redirect_url));
            &&& form_accepts(body)
            &&& form_text(body, "path".spec_bytes()) == path
            &&& form_text(body, "message".spec_bytes()) == message
            &&& form_text(body, "name".spec_bytes()) == name
            &&& form_text(body, "url".spec_bytes()) == url
            &&& form_text(body, "redirect_url".spec_bytes()) == redirect_url
        }),
{
    let ps = comment_form_pairs(path, message, name, url, redirect_url);
    law_form_round_trip(ps);
    lemma_field_names_distinct();
    let e = Seq::<(Seq<u8>, Seq<u8>)>::empty();
    let p1 = e.push(ps[0]);
    let p2 = p1.push(ps[1]);
    let p3 = p2.push(ps[2]);
    let p4 = p3.push(ps[3]);
    let p5 = p4.push(ps[4]);
    assert(p5 =~= ps);
    lemma_push_pair(e, ps[0]);
    lemma_push_pair(p1, ps[1]);
    lemma_push_pair(p2, ps[2]);
    lemma_push_pair(p3, ps[3]);
    lemma_push_pair(p4, ps[4]);
    encode_utf8_valid_utf8(path);
    encode_utf8_valid_utf8(message);
    encode_utf8_valid_utf8(name);
    encode_utf8_valid_utf8(url);
    encode_utf8_valid_utf8(redirect_url);
    encode_utf8_decode_utf8(path);
    encode_utf8_decode_utf8(message);
    encode_utf8_decode_utf8(name);
    encode_utf8_decode_utf8(url);
    encode_utf8_decode_utf8(redirect_url);
}

/// A piece is split at its first `=`: the name is what comes before it and
/// the value everything after it, further `=` included; a piece without
/// `=` is a name with an empty value.
pub proof fn law_pair_splits_at_first_equals(name: Seq<u8>, value: Seq<u8>)
    requires
        forall|k: int| 0 <= k < name.len() ==> name[k] != 61,
    ensures
        form_pair(name + seq![61u8] + value) == (form_decode(name), form_decode(value)),
        form_pair(name) == (form_decode(name), Seq::<u8>::empty()),
{
    let piece = name + seq![61u8] + value;
    assert forall|k: int| 0 <= k < name.len() implies piece[k] != 61 by {
        assert(piece[k] == name[k]);
    }
    assert(piece[name.len() as int] == 61u8);
    lemma_find_byte_at(piece, 61, name.len() as int);
    assert(piece.take(name.len() as int) =~= name);
    assert(piece.skip(name.len() as int + 1) =~= value);
    lemma_find_byte_at(name, 61, name.len() as int);
}

} // verus!

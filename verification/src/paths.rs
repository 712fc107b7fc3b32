//! Where a comment is stored: the comments file of a post and the branch
//! that carries it.
use vstd::prelude::*;
use vstd::string::*;
use crate::text::{chars_of, string_of};

verus! {

/// Whether every character of `s` is a slash.
pub open spec fn all_slashes(s: Seq<char>) -> bool {
    forall|k: int| 0 <= k < s.len() ==> #[trigger] s[k] == '/'
}

/// `s` without its leading slashes.
pub open spec fn trim_start_slashes(s: Seq<char>) -> Seq<char>
    decreases s.len(),
{
    if s.len() > 0 && s[0] == '/' {
        trim_start_slashes(s.drop_first())
    } else {
        s
    }
}

/// `s` without its trailing slashes.
pub open spec fn trim_end_slashes(s: Seq<char>) -> Seq<char>
    decreases s.len(),
{
    if s.len() > 0 && s.last() == '/' {
        trim_end_slashes(s.drop_last())
    } else {
        s
    }
}

/// `s` without the slashes at either end (`str::trim_matches('/')`).
pub open spec fn trim_slashes(s: Seq<char>) -> Seq<char> {
    trim_end_slashes(trim_start_slashes(s))
}

/// The repository path of the comments file of the post at `post_path`:
/// `{content_dir}/{post_path without outer slashes}/comments.yaml`.
pub open spec fn comments_path_of(content_dir: Seq<char>, post_path: Seq<char>) -> Seq<char> {
    content_dir + "/"@ + trim_slashes(post_path) + "/comments.yaml"@
}

/// The name of the branch that carries the comment with id `id`.
pub open spec fn branch_name_of(id: Seq<char>) -> Seq<char> {
    "comments/"@ + id
}

proof fn lemma_trim_start_at(s: Seq<char>, i: int)
    requires
        0 <= i <= s.len(),
        forall|k: int| 0 <= k < i ==> #[trigger] s[k] == '/',
        i == s.len() || s[i] != '/',
    ensures
        trim_start_slashes(s) == s.skip(i),
    decreases i,
{
    if i > 0 {
        lemma_trim_start_at(s.drop_first(), i - 1);
        assert(s.drop_first().skip(i - 1) =~= s.skip(i));
    } else {
        assert(s.skip(0) =~= s);
    }
}

proof fn lemma_trim_end_at(s: Seq<char>, j: int)
    requires
        0 <= j <= s.len(),
        forall|k: int| j <= k < s.len() ==> #[trigger] s[k] == '/',
        j == 0 || s[j - 1] != '/',
    ensures
        trim_end_slashes(s) == s.take(j),
    decreases s.len() - j,
{
    if j < s.len() {
        lemma_trim_end_at(s.drop_last(), j);
        assert(s.drop_last().take(j) =~= s.take(j));
    } else {
        assert(s.take(j) =~= s);
    }
}

proof fn lemma_trim_start_drops_slashes(a: Seq<char>, x: Seq<char>)
    requires
        all_slashes(a),
    ensures
        trim_start_slashes(a + x) == trim_start_slashes(x),
    decreases a.len(),
{
    if a.len() > 0 {
        assert((a + x)[0] == '/');
        assert((a + x).drop_first() =~= a.drop_first() + x);
        lemma_trim_start_drops_slashes(a.drop_first(), x);
    } else {
        assert(a + x =~= x);
    }
}

proof fn lemma_trim_end_drops_slashes(x: Seq<char>, b: Seq<char>)
    requires
        all_slashes(b),
    ensures
        trim_end_slashes(x + b) == trim_end_slashes(x),
    decreases b.len(),
{
    if b.len() > 0 {
        assert((x + b).last() == '/');
        assert((x + b).drop_last() =~= x + b.drop_last());
        lemma_trim_end_drops_slashes(x, b.drop_last());
    } else {
        assert(x + b =~= x);
    }
}

proof fn lemma_trim_start_append(x: Seq<char>, y: Seq<char>)
    ensures
        trim_start_slashes(x).len() > 0 ==> trim_start_slashes(x + y) == trim_start_slashes(x) + y,
        trim_start_slashes(x).len() == 0 ==> trim_start_slashes(x + y) == trim_start_slashes(y),
    decreases x.len(),
{
    if x.len() == 0 {
        assert(x + y =~= y);
    } else if x[0] == '/' {
        assert((x + y)[0] == '/');
        assert((x + y).drop_first() =~= x.drop_first() + y);
        lemma_trim_start_append(x.drop_first(), y);
    } else {
        assert((x + y)[0] == x[0]);
    }
}

proof fn lemma_trim_start_of_slashes(b: Seq<char>)
    requires
        all_slashes(b),
    ensures
        trim_start_slashes(b).len() == 0,
    decreases b.len(),
{
    if b.len() > 0 {
        lemma_trim_start_of_slashes(b.drop_first());
    }
}

proof fn lemma_trim_end_keeps_start(t: Seq<char>)
    requires
        t.len() > 0 ==> t[0] != '/',
    ensures
        trim_end_slashes(t).len() > 0 ==> trim_end_slashes(t)[0] != '/',
        trim_end_slashes(t).len() > 0 ==> trim_end_slashes(t).last() != '/',
        trim_end_slashes(t).len() <= t.len(),
        forall|k: int| 0 <= k < trim_end_slashes(t).len() ==> trim_end_slashes(t)[k] == t[k],
    decreases t.len(),
{
    if t.len() > 0 && t.last() == '/' {
        let u = t.drop_last();
        lemma_trim_end_keeps_start(u);
        assert forall|k: int| 0 <= k < trim_end_slashes(t).len() implies trim_end_slashes(t)[k] == t[k] by {
            assert(trim_end_slashes(t)[k] == u[k]);
        }
    }
}

proof fn lemma_trim_start_shape(s: Seq<char>)
    ensures
        trim_start_slashes(s).len() > 0 ==> trim_start_slashes(s)[0] != '/',
    decreases s.len(),
{
    if s.len() > 0 && s[0] == '/' {
        lemma_trim_start_shape(s.drop_first());
    }
}

/// Slashes around a post path do not change where its comments go: a post
/// at `/blog/my-post/` and one at `blog/my-post` share one comments file.
pub proof fn law_outer_slashes_ignored(content_dir: Seq<char>, a: Seq<char>, post_path: Seq<char>, b: Seq<char>)
    requires
        all_slashes(a),
        all_slashes(b),
    ensures
        comments_path_of(content_dir, a + post_path + b) == comments_path_of(content_dir, post_path),
{
    assert(a + post_path + b =~= a + (post_path + b));
    lemma_trim_start_drops_slashes(a, post_path + b);
    lemma_trim_start_append(post_path, b);
    if trim_start_slashes(post_path).len() > 0 {
        lemma_trim_end_drops_slashes(trim_start_slashes(post_path), b);
    } else {
        lemma_trim_start_of_slashes(b);
    }
}

/// Trimming the slashes of a path twice gives what trimming once gives.
pub proof fn law_trim_idempotent(s: Seq<char>)
    ensures
        trim_slashes(trim_slashes(s)) == trim_slashes(s),
{
    let t = trim_start_slashes(s);
    lemma_trim_start_shape(s);
    lemma_trim_end_keeps_start(t);
    let r = trim_end_slashes(t);
    if r.len() > 0 {
        lemma_trim_start_at(r, 0);
        assert(r.skip(0) =~= r);
        lemma_trim_end_at(r, r.len() as int);
        assert(r.take(r.len() as int) =~= r);
    }
}

proof fn lemma_trim_start_exists(s: Seq<char>)
    ensures
        exists|i: int|
            0 <= i <= s.len() && trim_start_slashes(s) == s.skip(i) && all_slashes(#[trigger] s.take(i)) && (i
                < s.len() ==> s[i] != '/'),
    decreases s.len(),
{
    if s.len() > 0 && s[0] == '/' {
        lemma_trim_start_exists(s.drop_first());
        let i = choose|i: int|
            0 <= i <= s.drop_first().len() && trim_start_slashes(s.drop_first()) == s.drop_first().skip(i)
                && all_slashes(#[trigger] s.drop_first().take(i)) && (i < s.drop_first().len()
                ==> s.drop_first()[i] != '/');
        assert(s.drop_first().skip(i) =~= s.skip(i + 1));
        assert forall|k: int| 0 <= k < s.take(i + 1).len() implies #[trigger] s.take(i + 1)[k] == '/' by {
            if k > 0 {
                assert(s.take(i + 1)[k] == s.drop_first().take(i)[k - 1]);
            }
        }
        if i + 1 < s.len() {
            assert(s[i + 1] == s.drop_first()[i]);
        }
        assert(all_slashes(s.take(i + 1)));
        assert(trim_start_slashes(s) == s.skip(i + 1));
    } else {
        assert(s.skip(0) =~= s);
        assert(all_slashes(s.take(0)));
    }
}

proof fn lemma_trim_end_exists(t: Seq<char>)
    ensures
        exists|j: int|
            0 <= j <= t.len() && trim_end_slashes(t) == t.take(j) && all_slashes(#[trigger] t.skip(j)) && (j > 0
                ==> t[j - 1] != '/'),
    decreases t.len(),
{
    if t.len() > 0 && t.last() == '/' {
        let u = t.drop_last();
        lemma_trim_end_exists(u);
        let j = choose|j: int|
            0 <= j <= u.len() && trim_end_slashes(u) == u.take(j) && all_slashes(#[trigger] u.skip(j)) && (j > 0
                ==> u[j - 1] != '/');
        assert(u.take(j) =~= t.take(j));
        assert forall|k: int| 0 <= k < t.skip(j).len() implies #[trigger] t.skip(j)[k] == '/' by {
            if j + k < u.len() {
                assert(t.skip(j)[k] == u.skip(j)[k]);
            }
        }
        assert(all_slashes(t.skip(j)));
        if j > 0 {
            assert(t[j - 1] == u[j - 1]);
        }
    } else {
        assert(t.take(t.len() as int) =~= t);
        assert(all_slashes(t.skip(t.len() as int)));
    }
}

/// Trimming cuts the slashes at the two ends of a path and nothing else:
/// what is left is one contiguous piece of the path, everything before and
/// after it is slashes, and it neither begins nor ends with a slash.
pub proof fn law_trim_cuts_outer_slashes(s: Seq<char>)
    ensures
        exists|i: int, j: int|
            0 <= i <= j <= s.len() && #[trigger] s.subrange(i, j) == trim_slashes(s) && all_slashes(s.take(i))
                && all_slashes(s.skip(j)) && (i < j ==> s[i] != '/' && s[j - 1] != '/'),
{
    lemma_trim_start_exists(s);
    let i = choose|i: int|
        0 <= i <= s.len() && trim_start_slashes(s) == s.skip(i) && all_slashes(#[trigger] s.take(i)) && (i
            < s.len() ==> s[i] != '/');
    let t = s.skip(i);
    lemma_trim_end_exists(t);
    let j = choose|j: int|
        0 <= j <= t.len() && trim_end_slashes(t) == t.take(j) && all_slashes(#[trigger] t.skip(j)) && (j > 0
            ==> t[j - 1] != '/');
    assert(t.take(j) =~= s.subrange(i, i + j));
    assert(t.skip(j) =~= s.skip(i + j));
    if 0 < j {
        assert(t[0] == s[i]);
        assert(t[j - 1] == s[i + j - 1]);
    }
    assert(s.subrange(i, i + j) == trim_slashes(s));
}

/// The comments file of a post lies under the content directory and is
/// called `comments.yaml`: its path is the content directory, a slash, the
/// trimmed post path and `/comments.yaml`.
pub proof fn law_comments_file_location(content_dir: Seq<char>, post_path: Seq<char>)
    ensures
        ({
            let p = comments_path_of(content_dir, post_path);
            let d = content_dir.len() as int;
            let t = trim_slashes(post_path).len() as int;
            &&& p.len() == d + t + 15
            &&& p.take(d) == content_dir
            &&& p[d] == '/'
            &&& p.subrange(d + 1, d + 1 + t) == trim_slashes(post_path)
            &&& p.skip(d + 1 + t) == seq!['/', 'c', 'o', 'm', 'm', 'e', 'n', 't', 's', '.', 'y', 'a', 'm', 'l']
        }),
{
    reveal_strlit("/");
    reveal_strlit("/comments.yaml");
    let p = comments_path_of(content_dir, post_path);
    let d = content_dir.len() as int;
    let t = trim_slashes(post_path).len() as int;
    assert(p.take(d) =~= content_dir);
    assert(p.subrange(d + 1, d + 1 + t) =~= trim_slashes(post_path));
    assert(p.skip(d + 1 + t) =~= seq!['/', 'c', 'o', 'm', 'm', 'e', 'n', 't', 's', '.', 'y', 'a', 'm', 'l']);
}

/// The branch of a comment is `comments/` followed by the comment's id.
pub proof fn law_branch_name_parts(id: Seq<char>)
    ensures
        branch_name_of(id).take(9) == seq!['c', 'o', 'm', 'm', 'e', 'n', 't', 's', '/'],
        branch_name_of(id).skip(9) == id,
{
    reveal_strlit("comments/");
    assert(branch_name_of(id).take(9) =~= seq!['c', 'o', 'm', 'm', 'e', 'n', 't', 's', '/']);
    assert(branch_name_of(id).skip(9) =~= id);
}

/// `post_path` without the slashes at either end.
pub fn trim_slashes_string(post_path: &str) -> (t: String)
    ensures
        t@ == trim_slashes(post_path@),
{
    let v = chars_of(post_path);
    let n = v.len();
    let mut i: usize = 0;
    while i < n && v[i] == '/'
        invariant
            n == v@.len(),
            i <= n,
            forall|k: int| 0 <= k < i ==> #[trigger] v@[k] == '/',
        decreases n - i,
    {
        i = i + 1;
    }
    let mut j: usize = n;
    while j > i && v[j - 1] == '/'
        invariant
            n == v@.len(),
            i <= j <= n,
            forall|k: int| j <= k < n ==> #[trigger] v@[k] == '/',
        decreases j,
    {
        j = j - 1;
    }
    proof {
        lemma_trim_start_at(v@, i as int);
        let rest = v@.skip(i as int);
        assert forall|k: int| j - i <= k < rest.len() implies #[trigger] rest[k] == '/' by {
            assert(rest[k] == v@[k + i]);
        }
        if j > i {
            assert(rest[j - i - 1] == v@[j - 1]);
        }
        lemma_trim_end_at(rest, j - i);
        assert(rest.take(j - i) =~= v@.subrange(i as int, j as int));
    }
    string_of(&v, i, j)
}

/// The repository path of the comments file of the post at `post_path`.
pub fn comments_path(content_dir: &str, post_path: &str) -> (p: String)
    ensures
        p@ == comments_path_of(content_dir@, post_path@),
{
    let trimmed = trim_slashes_string(post_path);
    let mut p = String::from_str(content_dir);
    p.append("/");
    p.append(trimmed.as_str());
    p.append("/comments.yaml");
    p
}

/// The name of the branch that carries the comment with id `id`.
pub fn branch_name(id: &str) -> (b: String)
    ensures
        b@ == branch_name_of(id@),
{
    let mut b = String::from_str("comments/");
    b.append(id);
    b
}

} // verus!

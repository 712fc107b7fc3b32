//! The HTTP replies of the comment server.
use vstd::prelude::*;
use crate::text::{chars_of, starts_with};

verus! {

/// The largest request body, in bytes, that is read; a larger comment is
/// refused.
pub const MAX_BODY_BYTES: usize = 100 * 1024;

/// The response headers that a reply can carry.
#[derive(PartialEq, Eq, Structural, Clone, Copy, Debug)]
pub enum Header {
    AccessControlAllowMethods,
    AccessControlAllowOrigin,
    AccessControlAllowHeaders,
    Location,
}

/// An HTTP reply: status code, headers in order, and body text.
pub struct Reply {
    pub status: u16,
    pub headers: Vec<(Header, String)>,
    pub body: String,
}

/// What a reply is, with its texts as character sequences.
pub struct ReplyView {
    pub status: u16,
    pub headers: Seq<(Header, Seq<char>)>,
    pub body: Seq<char>,
}

/// The headers `hs` with their values as character sequences.
pub open spec fn headers_view(hs: Seq<(Header, String)>) -> Seq<(Header, Seq<char>)> {
    hs.map_values(|h: (Header, String)| (h.0, h.1@))
}

impl View for Reply {
    type V = ReplyView;

    open spec fn view(&self) -> ReplyView {
        ReplyView { status: self.status, headers: headers_view(self.headers@), body: self.body@ }
    }
}

/// Why a submission is turned away before anything is stored.
#[derive(PartialEq, Eq, Structural, Clone, Copy, Debug)]
pub enum Rejection {
    /// The body exceeds `MAX_BODY_BYTES` or could not be read.
    BodyTooLarge,
    /// The body, read as JSON or as a form, does not describe a comment.
    InvalidJson,
}

/// The headers that let a page of another origin post comments.
pub open spec fn cors_headers() -> Seq<(Header, Seq<char>)> {
    seq![
        (Header::AccessControlAllowMethods, "OPTIONS, POST"@),
        (Header::AccessControlAllowOrigin, "*"@),
        (Header::AccessControlAllowHeaders, "content-type"@),
    ]
}

/// The text sent back with a rejection.
pub open spec fn rejection_text(r: Rejection) -> Seq<char> {
    match r {
        Rejection::BodyTooLarge => "Comment size limit exceeded"@,
        Rejection::InvalidJson => "Invalid JSON"@,
    }
}

/// The reply to a submission turned away for the reason `r`.
pub open spec fn rejection_view(r: Rejection) -> ReplyView {
    ReplyView { status: 400, headers: Seq::empty(), body: rejection_text(r) }
}

/// The text sent back once a comment has been submitted for review.
pub open spec fn accepted_text() -> Seq<char> {
    "That worked, now goeth forth"@
}

fn string_from(s: &str) -> (r: String)
    ensures
        r@ == s@,
{
    String::from_str(s)
}

fn cors_header_list() -> (hs: Vec<(Header, String)>)
    ensures
        headers_view(hs@) == cors_headers(),
{
    let mut hs: Vec<(Header, String)> = Vec::new();
    hs.push((Header::AccessControlAllowMethods, string_from("OPTIONS, POST")));
    hs.push((Header::AccessControlAllowOrigin, string_from("*")));
    hs.push((Header::AccessControlAllowHeaders, string_from("content-type")));
    assert(headers_view(hs@) =~= cors_headers());
    hs
}

/// The reply to a CORS preflight request: 204 with the CORS headers.
pub fn preflight_reply() -> (r: Reply)
    ensures
        r@.status == 204,
        r@.headers == cors_headers(),
        r@.body == Seq::<char>::empty(),
{
    Reply { status: 204, headers: cors_header_list(), body: String::new() }
}

/// The reply to a submission that is turned away: 400 with the reason.
pub fn rejection_reply(why: Rejection) -> (r: Reply)
    ensures
        r@ == rejection_view(why),
{
    let body = match why {
        Rejection::BodyTooLarge => string_from("Comment size limit exceeded"),
        Rejection::InvalidJson => string_from("Invalid JSON"),
    };
    let hs: Vec<(Header, String)> = Vec::new();
    assert(headers_view(hs@) =~= Seq::<(Header, Seq<char>)>::empty());
    Reply { status: 400, headers: hs, body }
}

/// Whether `s` can be sent as an HTTP header value: no control character
/// but the tab, and no DEL.
pub open spec fn header_safe(s: Seq<char>) -> bool {
    forall|i: int| 0 <= i < s.len() ==> #[trigger] s[i] == '\t' || (s[i] as u32 >= 32 && s[i] as u32 != 127)
}

/// The reply once a comment is submitted for review: a 303 back to the page
/// that `location` names, with the CORS headers; when `location` cannot be
/// sent as a header value, a 201 with the CORS headers and no redirect.
pub open spec fn accepted_view(location: Seq<char>) -> ReplyView {
    if header_safe(location) {
        ReplyView {
            status: 303,
            headers: cors_headers().push((Header::Location, location)),
            body: accepted_text(),
        }
    } else {
        ReplyView { status: 201, headers: cors_headers(), body: accepted_text() }
    }
}

/// Any address made of printable ASCII characters, or of characters beyond
/// ASCII, can be sent as a header value: the visitor is sent back to it with
/// a 303 whose last header is `Location` with the address, after the CORS
/// headers.
pub proof fn law_printable_address_redirects(location: Seq<char>)
    requires
        forall|i: int| 0 <= i < location.len() ==> (32 <= #[trigger] location[i] as u32 <= 126 || location[i] as u32 >= 128),
    ensures
        header_safe(location),
        accepted_view(location).status == 303,
        accepted_view(location).headers.len() == 4,
        accepted_view(location).headers.take(3) == cors_headers(),
        accepted_view(location).headers.last() == (Header::Location, location),
        accepted_view(location).body == "That worked, now goeth forth"@,
{
    assert(cors_headers().push((Header::Location, location)).take(3) =~= cors_headers());
}

/// An address with a control character (other than a tab) or DEL in it
/// cannot be sent as a header value; the reply then has no `Location`
/// header: a 201 with the CORS headers only.
pub proof fn law_control_address_not_redirected(location: Seq<char>, i: int)
    requires
        0 <= i < location.len(),
        (location[i] as u32) < 32 && location[i] != '\t' || location[i] as u32 == 127,
    ensures
        !header_safe(location),
        accepted_view(location).status == 201,
        accepted_view(location).headers == cors_headers(),
        forall|k: int| 0 <= k < accepted_view(location).headers.len() ==> #[trigger] accepted_view(location).headers[k].0 != Header::Location,
{
    reveal_strlit("OPTIONS, POST");
    reveal_strlit("*");
    reveal_strlit("content-type");
}

/// The texts of the replies: the three CORS headers (methods `OPTIONS,
/// POST`, any origin, the `content-type` header), and the refusals: 400
/// with no headers and "Comment size limit exceeded" or "Invalid JSON".
pub proof fn law_reply_texts()
    ensures
        cors_headers() == seq![
            (Header::AccessControlAllowMethods, "OPTIONS, POST"@),
            (Header::AccessControlAllowOrigin, "*"@),
            (Header::AccessControlAllowHeaders, "content-type"@),
        ],
        rejection_view(Rejection::BodyTooLarge) == (ReplyView {
            status: 400,
            headers: Seq::empty(),
            body: "Comment size limit exceeded"@,
        }),
        rejection_view(Rejection::InvalidJson) == (ReplyView {
            status: 400,
            headers: Seq::empty(),
            body: "Invalid JSON"@,
        }),
        accepted_text() == "That worked, now goeth forth"@,
{
}

/// A reply's view reports its status, its headers in order with their
/// values, and its body, as they stand.
pub proof fn law_reply_fields(r: Reply)
    ensures
        r@.status == r.status,
        r@.body == r.body@,
        r@.headers.len() == r.headers@.len(),
        forall|i: int| 0 <= i < r.headers@.len() ==> #[trigger] r@.headers[i] == (r.headers@[i].0, r.headers@[i].1@),
{
}

/// Whether `s` can be sent as an HTTP header value.
pub fn is_header_safe(s: &str) -> (r: bool)
    ensures
        r == header_safe(s@),
{
    let v = chars_of(s);
    let n = v.len();
    let mut k: usize = 0;
    while k < n
        invariant
            v@ == s@,
            n == v@.len(),
            k <= n,
            forall|i: int| 0 <= i < k ==> #[trigger] v@[i] == '\t' || (v@[i] as u32 >= 32 && v@[i] as u32 != 127),
        decreases n - k,
    {
        let c = v[k];
        let code = c as u32;
        if !(c == '\t' || (code >= 32 && code != 127)) {
            return false;
        }
        k = k + 1;
    }
    true
}

/// The reply once a comment is submitted for review (see `accepted_view`).
pub fn accepted_reply(location: &str) -> (r: Reply)
    ensures
        r@ == accepted_view(location@),
{
    let mut hs = cors_header_list();
    let body = string_from("That worked, now goeth forth");
    if is_header_safe(location) {
        let ghost before = hs@;
        hs.push((Header::Location, string_from(location)));
        assert(headers_view(hs@) =~= headers_view(before).push((Header::Location, location@)));
        Reply { status: 303, headers: hs, body }
    } else {
        Reply { status: 201, headers: hs, body }
    }
}

/// Whether a request with HTTP method `method` is a CORS preflight; every
/// other request is taken for a comment submission.
pub fn is_preflight(method: &str) -> (r: bool)
    ensures
        r == (method@ == "OPTIONS"@),
{
    let m = chars_of(method);
    let o = chars_of("OPTIONS");
    let r = m.len() == o.len() && starts_with(method, "OPTIONS");
    assert(method@.subrange(0, method@.len() as int) =~= method@);
    r
}

} // verus!

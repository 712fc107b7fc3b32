//! The first decisions on a request: answer a CORS preflight, and turn the
//! body of a submission into a `Post` or into the reply that refuses it.
use vstd::prelude::*;
use vstd::string::*;
use crate::comment::Post;
use crate::form::{form_accepts, form_text, parse_form};
use crate::reply::{
    cors_headers, is_preflight, preflight_reply, rejection_reply, rejection_view, Rejection, Reply,
};
use crate::text::starts_with;

verus! {

/// Whether a body sent with the content type `content_type` is a form; a
/// body with any other content type, or with none, is read as JSON.
pub open spec fn is_form_type(content_type: Option<Seq<char>>) -> bool {
    match content_type {
        Some(t) => "application/x-www-form-urlencoded"@.is_prefix_of(t),
        None => false,
    }
}

/// The text of an optional string slice.
pub open spec fn opt_str(o: Option<&str>) -> Option<Seq<char>> {
    match o {
        Some(s) => Some(s@),
        None => None,
    }
}

/// A body is read as a form exactly when its content type begins with
/// `application/x-www-form-urlencoded` (parameters such as a charset may
/// follow); without a content type it is not.
pub proof fn law_form_content_type(t: Seq<char>, rest: Seq<char>)
    ensures
        is_form_type(Some("application/x-www-form-urlencoded"@ + rest)),
        is_form_type(Some(t)) ==> t.len() >= 33 && t.take(33) == "application/x-www-form-urlencoded"@,
        !is_form_type(None),
{
    reveal_strlit("application/x-www-form-urlencoded");
    let full = "application/x-www-form-urlencoded"@ + rest;
    assert(full.subrange(0, 33) =~= "application/x-www-form-urlencoded"@);
    if is_form_type(Some(t)) {
        assert(t.take(33) =~= t.subrange(0, 33));
    }
}

/// Whether a body sent with the content type `content_type` is a form.
pub fn is_form_body(content_type: Option<&str>) -> (r: bool)
    ensures
        r == is_form_type(opt_str(content_type)),
{
    match content_type {
        Some(t) => starts_with(t, "application/x-www-form-urlencoded"),
        None => false,
    }
}

/// The reply to a request with HTTP method `method` that is given before
/// its body is read: the preflight reply to `OPTIONS`, nothing otherwise
/// (the request is a submission).
pub fn answer_before_body(method: &str) -> (r: Option<Reply>)
    ensures
        r is Some <==> method@ == "OPTIONS"@,
        r matches Some(reply) ==> reply@.status == 204 && reply@.headers == cors_headers()
            && reply@.body == Seq::<char>::empty(),
{
    if is_preflight(method) {
        Some(preflight_reply())
    } else {
        None
    }
}

/// The comment that a submission makes, or the reply that refuses it.
/// `body` is the body that was read, nothing when it exceeds the size limit
/// or could not be read; `content_type` is the request's content type;
/// `json_post` is what reading `body` as JSON gave. A form body is decoded
/// here, and a body that is not a form, or does not decode as one, is taken
/// to be JSON. A body that describes no comment is refused with
/// "Invalid JSON".
pub fn receive(content_type: Option<&str>, body: Option<&Vec<u8>>, json_post: Option<Post>) -> (r: Result<Post, Reply>)
    ensures
        body is None ==> (r matches Err(reply) && reply@ == rejection_view(Rejection::BodyTooLarge)),
        body matches Some(b) ==> if is_form_type(opt_str(content_type)) && form_accepts(b@) {
            r matches Ok(p) && {
                &&& p.path@ == form_text(b@, "path".spec_bytes())
                &&& p.message@ == form_text(b@, "message".spec_bytes())
                &&& p.name@ == form_text(b@, "name".spec_bytes())
                &&& p.url@ == form_text(b@, "url".spec_bytes())
                &&& p.redirect_url@ == form_text(b@, "redirect_url".spec_bytes())
            }
        } else {
            match json_post {
                Some(p) => (r matches Ok(q) && q == p),
                None => (r matches Err(reply) && reply@ == rejection_view(Rejection::InvalidJson)),
            }
        },
{
    match body {
        None => Err(rejection_reply(Rejection::BodyTooLarge)),
        Some(b) => {
            if is_form_body(content_type) {
                if let Some(p) = parse_form(b) {
                    return Ok(p);
                }
            }
            match json_post {
                Some(p) => Ok(p),
                None => Err(rejection_reply(Rejection::InvalidJson)),
            }
        },
    }
}

} // verus!

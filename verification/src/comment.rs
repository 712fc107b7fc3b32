//! The comment that a visitor submits, and the comment that gets stored.
use vstd::prelude::*;
use crate::ident::{comment_id_of, new_comment_id, NONCE_BOUND};

verus! {

/// What a visitor submits with the comment form.
pub struct Post {
    /// The URL path of the post that is commented on, e.g. `/blog/my-post/`.
    pub path: String,
    pub message: String,
    pub name: String,
    /// The commenter's web site; empty when none was given.
    pub url: String,
    /// Where the visitor is sent back to once the comment is submitted.
    pub redirect_url: String,
}

/// The identity under which the comment commits are made.
pub struct Committer {
    pub name: String,
    pub email: String,
}

/// A comment as it is stored in the comments file of a post.
pub struct Comment {
    pub id: String,
    pub message: String,
    pub name: String,
    pub url: String,
    /// When the comment was submitted, in seconds since the Unix epoch.
    pub date: u64,
}

impl Comment {
    /// The comment that `post` makes when it is submitted at `time`
    /// (seconds since the Unix epoch). Its id is fresh: `time`, an
    /// underscore and a random number below `NONCE_BOUND`.
    pub fn new(post: &Post, time: u64) -> (c: Comment)
        ensures
            exists|n: nat| n < NONCE_BOUND && c.id@ == #[trigger] comment_id_of(time as nat, n),
            c.message@ == post.message@,
            c.name@ == post.name@,
            c.url@ == post.url@,
            c.date == time,
    {
        Comment {
            id: new_comment_id(time),
            message: post.message.clone(),
            name: post.name.clone(),
            url: post.url.clone(),
            date: time,
        }
    }
}

impl Committer {
    /// A copy of this identity.
    pub fn duplicate(&self) -> (c: Committer)
        ensures
            c.name@ == self.name@,
            c.email@ == self.email@,
    {
        Committer { name: self.name.clone(), email: self.email.clone() }
    }
}

} // verus!

//! Laberbox: the decisions of a comment server for static sites.
//!
//! A visitor posts a comment form; the server stores the comment on a branch
//! of the site's repository and opens a pull request for the site owner.

pub mod comment;
pub mod form;
pub mod ident;
pub mod intake;
pub mod paths;
pub mod reply;
pub mod text;
pub mod workflow;

use laberbox::comment::{Comment, Committer, Post};
use laberbox::form::parse_form;
use laberbox::ident::{comment_id, new_comment_id, NONCE_BOUND};
use laberbox::paths::{branch_name, comments_path, trim_slashes_string};
use laberbox::intake::{answer_before_body, is_form_body, receive};
use laberbox::reply::{
    accepted_reply, is_header_safe, is_preflight, preflight_reply, rejection_reply, Header, Rejection,
    MAX_BODY_BYTES,
};
use laberbox::text::decimal_string;
use laberbox::workflow::{Action, Event, Failure, Stage, StoredFile, Submission};

fn post() -> Post {
    Post {
        path: "/blog/test-post/".to_string(),
        message: "Great post!".to_string(),
        name: "Test User".to_string(),
        url: "https://example.com".to_string(),
        redirect_url: "http://myblog.com/blog/test-post/#comments".to_string(),
    }
}

fn committer() -> Committer {
    Committer { name: "Test Bot".to_string(), email: "bot@example.com".to_string() }
}

fn comment() -> Comment {
    Comment {
        id: "1700000000_42".to_string(),
        message: "Great post!".to_string(),
        name: "Test User".to_string(),
        url: "https://example.com".to_string(),
        date: 1700000000,
    }
}

const ENTRY: &str = "- id: 1700000000_42\n  message: Great post!\n  name: Test User\n  url: https://example.com\n  date: 1700000000\n";

fn started() -> Submission {
    let (s, action) = Submission::begin(&post(), &comment(), ENTRY.to_string(), "content", &committer());
    match action {
        Action::ReadRef { name } => assert_eq!(name, "master"),
        _ => panic!("first action must read the master ref"),
    }
    assert_eq!(s.stage, Stage::AwaitMasterRef);
    s
}

fn until_lookup() -> Submission {
    let s = started();
    let (s, action) = s.step(Event::MasterRef(Some("deadbeef".to_string())));
    match action {
        Action::CreateBranch { name, sha } => {
            assert_eq!(name, "comments/1700000000_42");
            assert_eq!(sha, "deadbeef");
        }
        _ => panic!("expected the branch to be created"),
    }
    let (s, action) = s.step(Event::BranchCreated);
    match action {
        Action::ReadFile { path } => assert_eq!(path, "content/blog/test-post/comments.yaml"),
        _ => panic!("expected the comments file to be read"),
    }
    assert_eq!(s.stage, Stage::AwaitExisting);
    s
}

fn aborted(action: Action) -> Failure {
    match action {
        Action::Abort(f) => f,
        _ => panic!("expected the submission to be given up"),
    }
}

#[test]
fn decimal_renders_numbers() {
    assert_eq!(decimal_string(0), "0");
    assert_eq!(decimal_string(7), "7");
    assert_eq!(decimal_string(10), "10");
    assert_eq!(decimal_string(1700000000), "1700000000");
    assert_eq!(decimal_string(u64::MAX), u64::MAX.to_string());
}

#[test]
fn comment_id_joins_time_and_nonce() {
    assert_eq!(comment_id(1700000000, 42), "1700000000_42");
    assert_eq!(comment_id(0, 0), "0_0");
    assert_eq!(comment_id(5, 999999998), "5_999999998");
}

#[test]
fn fresh_comment_id_has_time_and_bounded_nonce() {
    for _ in 0..50 {
        let id = new_comment_id(1234);
        let (time, nonce) = id.split_once('_').unwrap();
        assert_eq!(time, "1234");
        let n: u64 = nonce.parse().unwrap();
        assert!(n < NONCE_BOUND);
        assert_eq!(nonce, n.to_string());
    }
}

#[test]
fn distinct_ids_make_distinct_branches() {
    assert_ne!(branch_name(&comment_id(1, 23)), branch_name(&comment_id(12, 3)));
    assert_ne!(branch_name(&comment_id(1, 2)), branch_name(&comment_id(1, 3)));
}

#[test]
fn comment_copies_the_post() {
    let c = Comment::new(&post(), 1700000000);
    assert!(c.id.starts_with("1700000000_"));
    assert_eq!(c.message, "Great post!");
    assert_eq!(c.name, "Test User");
    assert_eq!(c.url, "https://example.com");
    assert_eq!(c.date, 1700000000);
}

#[test]
fn comments_path_of_a_post() {
    assert_eq!(comments_path("content", "/blog/my-post/"), "content/blog/my-post/comments.yaml");
    assert_eq!(comments_path("content", "blog/my-post"), "content/blog/my-post/comments.yaml");
    assert_eq!(comments_path("_posts", "///a//b///"), "_posts/a//b/comments.yaml");
    assert_eq!(comments_path(".", "/"), ".//comments.yaml");
}

#[test]
fn trimming_twice_is_trimming_once() {
    for p in ["/blog/x/", "//", "", "a", "/a/b/c", "x///"] {
        let once = trim_slashes_string(p);
        assert_eq!(trim_slashes_string(&once), once);
        assert_eq!(once, p.trim_matches('/'));
    }
}

#[test]
fn branch_of_a_comment() {
    assert_eq!(branch_name("1700000000_42"), "comments/1700000000_42");
    assert_ne!(branch_name(""), "master");
}

#[test]
fn form_of_the_comment_page() {
    let body = b"path=%2Fblog%2Ftest-post%2F&name=Test+User&url=https%3A%2F%2Fexample.com&message=Great+post%21&redirect_url=http%3A%2F%2Fmyblog.com%2Fblog%2Ftest-post%2F%23comments".to_vec();
    let p = parse_form(&body).unwrap();
    assert_eq!(p.path, "/blog/test-post/");
    assert_eq!(p.name, "Test User");
    assert_eq!(p.url, "https://example.com");
    assert_eq!(p.message, "Great post!");
    assert_eq!(p.redirect_url, "http://myblog.com/blog/test-post/#comments");
}

#[test]
fn form_without_url_gives_empty_url() {
    let p = parse_form(&b"path=/p/&message=hi&name=Bob&redirect_url=/back".to_vec()).unwrap();
    assert_eq!(p.url, "");
    assert_eq!(p.name, "Bob");
    assert_eq!(p.path, "/p/");
}

#[test]
fn form_decoding_details() {
    let p = parse_form(&b"&&path=a%zzb%2&message=x%2By+z&name=%C3%A9&redirect_url&other=%FF".to_vec()).unwrap();
    assert_eq!(p.path, "a%zzb%2");
    assert_eq!(p.message, "x+y z");
    assert_eq!(p.name, "\u{e9}");
    assert_eq!(p.redirect_url, "");
    let q = parse_form(&b"path=a=b&message=m&name=n&redirect_url=r&".to_vec()).unwrap();
    assert_eq!(q.path, "a=b");
}

#[test]
fn form_rejections() {
    assert!(parse_form(&b"".to_vec()).is_none());
    assert!(parse_form(&b"path=/p/&message=hi&redirect_url=/back".to_vec()).is_none());
    assert!(parse_form(&b"path=/p/&path=/q/&message=hi&name=n&redirect_url=/back".to_vec()).is_none());
    assert!(parse_form(&b"path=/p/&message=hi&name=n&url=a&url=b&redirect_url=/back".to_vec()).is_none());
    assert!(parse_form(&b"path=/p/&message=%FF&name=n&redirect_url=/back".to_vec()).is_none());
}

#[test]
fn plain_text_is_unchanged() {
    let p = parse_form(&b"path=abc/DEF-123.~_&message=m&name=n&redirect_url=r".to_vec()).unwrap();
    assert_eq!(p.path, "abc/DEF-123.~_");
}

#[test]
fn preflight_and_method() {
    assert!(is_preflight("OPTIONS"));
    assert!(!is_preflight("POST"));
    assert!(!is_preflight("options"));
    let r = preflight_reply();
    assert_eq!(r.status, 204);
    assert_eq!(
        r.headers,
        vec![
            (Header::AccessControlAllowMethods, "OPTIONS, POST".to_string()),
            (Header::AccessControlAllowOrigin, "*".to_string()),
            (Header::AccessControlAllowHeaders, "content-type".to_string()),
        ]
    );
    assert_eq!(r.body, "");
}

#[test]
fn form_or_json_body() {
    assert!(is_form_body(Some("application/x-www-form-urlencoded")));
    assert!(is_form_body(Some("application/x-www-form-urlencoded; charset=UTF-8")));
    assert!(!is_form_body(Some("application/json")));
    assert!(!is_form_body(Some("text/plain")));
    assert!(!is_form_body(None));
}

#[test]
fn preflight_is_answered_before_the_body() {
    let r = answer_before_body("OPTIONS").unwrap();
    assert_eq!(r.status, 204);
    assert_eq!(r.headers.len(), 3);
    assert!(answer_before_body("POST").is_none());
    assert!(answer_before_body("GET").is_none());
}

#[test]
fn empty_poll_is_refused_as_invalid_json() {
    let r = receive(None, Some(&Vec::new()), None).err().unwrap();
    assert_eq!((r.status, r.body.as_str()), (400, "Invalid JSON"));
    assert!(r.headers.is_empty());
}

#[test]
fn undecodable_form_is_refused_as_invalid_json() {
    let body = b"path=/p/&message=hi".to_vec();
    let r = receive(Some("application/x-www-form-urlencoded"), Some(&body), None).err().unwrap();
    assert_eq!((r.status, r.body.as_str()), (400, "Invalid JSON"));
}

#[test]
fn oversized_body_is_refused() {
    let r = receive(Some("application/x-www-form-urlencoded"), None, Some(post())).err().unwrap();
    assert_eq!((r.status, r.body.as_str()), (400, "Comment size limit exceeded"));
}

#[test]
fn form_body_is_decoded_here() {
    let body = b"path=%2Fp%2F&message=hi&name=Bob&redirect_url=%2Fback".to_vec();
    let p = receive(Some("application/x-www-form-urlencoded"), Some(&body), None).ok().unwrap();
    assert_eq!((p.path.as_str(), p.name.as_str(), p.redirect_url.as_str()), ("/p/", "Bob", "/back"));
}

#[test]
fn json_sent_as_form_is_still_read() {
    let body = br#"{"path":"/p/"}"#.to_vec();
    let p = receive(Some("application/x-www-form-urlencoded"), Some(&body), Some(post())).ok().unwrap();
    assert_eq!(p.path, "/blog/test-post/");
}

#[test]
fn other_bodies_are_json() {
    let body = br#"{"path":"/blog/test-post/"}"#.to_vec();
    let p = receive(Some("text/plain"), Some(&body), Some(post())).ok().unwrap();
    assert_eq!(p.name, "Test User");
    let r = receive(Some("application/json"), Some(&body), None).err().unwrap();
    assert_eq!(r.body, "Invalid JSON");
}

#[test]
fn rejection_replies() {
    assert_eq!(MAX_BODY_BYTES, 102400);
    let r = rejection_reply(Rejection::BodyTooLarge);
    assert_eq!((r.status, r.body.as_str()), (400, "Comment size limit exceeded"));
    assert!(r.headers.is_empty());
    assert_eq!(rejection_reply(Rejection::InvalidJson).body, "Invalid JSON");
}

#[test]
fn accepted_reply_redirects() {
    let r = accepted_reply("http://myblog.com/blog/test-post/#comments");
    assert_eq!(r.status, 303);
    assert_eq!(
        r.headers.last().unwrap(),
        &(Header::Location, "http://myblog.com/blog/test-post/#comments".to_string())
    );
    assert_eq!(r.headers.len(), 4);
    assert_eq!(r.body, "That worked, now goeth forth");
}

#[test]
fn unsendable_redirect_address_gets_201() {
    assert!(is_header_safe("http://myblog.com/\u{e9}t\u{e9}/#c\tx"));
    assert!(!is_header_safe("http://evil\r\nSet-Cookie: x"));
    assert!(!is_header_safe("a\u{7f}"));
    let r = accepted_reply("http://myblog.com/\nx");
    assert_eq!(r.status, 201);
    assert_eq!(r.headers.len(), 3);
    assert!(r.headers.iter().all(|h| h.0 != Header::Location));
    assert_eq!(r.body, "That worked, now goeth forth");
}

#[test]
fn comment_creates_new_file() {
    let s = until_lookup();
    let (s, action) = s.step(Event::ExistingUnavailable);
    match action {
        Action::CreateFile { path, message, content, branch, author } => {
            assert_eq!(path, "content/blog/test-post/comments.yaml");
            assert_eq!(message, "Added comment from 'Test User'");
            assert_eq!(content, ENTRY);
            assert_eq!(branch, "comments/1700000000_42");
            assert_eq!((author.name.as_str(), author.email.as_str()), ("Test Bot", "bot@example.com"));
        }
        _ => panic!("expected the file to be created"),
    }
    assert_eq!(s.stage, Stage::AwaitCreate);
    let (s, action) = s.step(Event::FileWritten);
    match action {
        Action::OpenPullRequest { title, head, base } => {
            assert_eq!(title, "New comment from Test User");
            assert_eq!(head, "comments/1700000000_42");
            assert_eq!(base, "master");
        }
        _ => panic!("expected a pull request"),
    }
    let (s, action) = s.step(Event::PullRequestOpened);
    assert_eq!(s.stage, Stage::Finished);
    match action {
        Action::Respond(r) => {
            assert_eq!(r.status, 303);
            assert_eq!(
                r.headers.last().unwrap(),
                &(Header::Location, "http://myblog.com/blog/test-post/#comments".to_string())
            );
        }
        _ => panic!("expected the reply"),
    }
}

#[test]
fn empty_lookup_creates_file() {
    let s = until_lookup();
    let (s, action) = s.step(Event::ExistingFiles(vec![]));
    assert_eq!(s.stage, Stage::AwaitCreate);
    match action {
        Action::CreateFile { content, .. } => assert_eq!(content, ENTRY),
        _ => panic!("expected the file to be created"),
    }
}

#[test]
fn comment_appends_to_existing_file() {
    let existing = "- id: \"old_comment\"\n  message: First!\n  name: Alice\n  url: ''\n  date: 1000\n";
    let s = until_lookup();
    let file = StoredFile { text: Some(existing.to_string()), sha: "existingsha123".to_string() };
    let (s, action) = s.step(Event::ExistingFiles(vec![file]));
    match action {
        Action::UpdateFile { path, content, sha, branch, .. } => {
            assert_eq!(path, "content/blog/test-post/comments.yaml");
            assert_eq!(sha, "existingsha123");
            assert_eq!(branch, "comments/1700000000_42");
            assert_eq!(content, format!("{}{}\n", existing, ENTRY));
            assert!(content.starts_with(existing));
            assert!(content.contains("First!") && content.contains("Great post!"));
        }
        _ => panic!("expected the file to be updated"),
    }
    assert_eq!(s.stage, Stage::AwaitUpdate);
    let (s, action) = s.step(Event::FileWritten);
    match action {
        Action::OpenPullRequest { title, head, base } => {
            assert_eq!(title, "New comment from Test User");
            assert_eq!(head, "comments/1700000000_42");
            assert_eq!(base, "master");
        }
        _ => panic!("expected a pull request"),
    }
    let (s, action) = s.step(Event::PullRequestOpened);
    assert_eq!(s.stage, Stage::Finished);
    match action {
        Action::Respond(r) => {
            assert_eq!(r.status, 303);
            assert_eq!(
                r.headers.last().unwrap(),
                &(Header::Location, "http://myblog.com/blog/test-post/#comments".to_string())
            );
        }
        _ => panic!("expected the reply"),
    }
}

#[test]
fn failed_update_is_given_up() {
    let file = StoredFile { text: Some("- id: a\n".to_string()), sha: "s".to_string() };
    let (s, _) = until_lookup().step(Event::ExistingFiles(vec![file]));
    assert_eq!(s.stage, Stage::AwaitUpdate);
    let (_, action) = s.step(Event::FileWriteFailed);
    assert_eq!(aborted(action), Failure::UpdateFailed);
}

#[test]
fn lookup_failures() {
    let two = vec![
        StoredFile { text: Some(String::new()), sha: "a".to_string() },
        StoredFile { text: Some(String::new()), sha: "b".to_string() },
    ];
    let (s, action) = until_lookup().step(Event::ExistingFiles(two));
    assert_eq!(s.stage, Stage::Finished);
    assert_eq!(aborted(action), Failure::SeveralFiles);
    let bad = vec![StoredFile { text: None, sha: "a".to_string() }];
    assert_eq!(aborted(until_lookup().step(Event::ExistingFiles(bad)).1), Failure::UndecodableFile);
}

#[test]
fn other_failures() {
    assert_eq!(aborted(started().step(Event::MasterRef(None)).1), Failure::UnexpectedRefTarget);
    assert_eq!(aborted(started().step(Event::MasterRefFailed).1), Failure::MasterRefUnavailable);
    assert_eq!(aborted(started().step(Event::BranchCreated).1), Failure::OutOfOrder);
    let (s, _) = started().step(Event::MasterRef(Some("x".to_string())));
    assert_eq!(aborted(s.step(Event::BranchFailed).1), Failure::BranchNotCreated);
    let (s, _) = until_lookup().step(Event::ExistingFiles(vec![]));
    assert_eq!(aborted(s.step(Event::FileWriteFailed).1), Failure::CreateFailed);
    let (s, _) = until_lookup().step(Event::ExistingFiles(vec![]));
    let (s, _) = s.step(Event::FileWritten);
    assert_eq!(s.stage, Stage::AwaitPullRequest);
    assert_eq!(aborted(s.step(Event::PullRequestFailed).1), Failure::PullRequestFailed);
}

#[test]
fn every_step_moves_forward() {
    let s = started();
    let (s, _) = s.step(Event::MasterRef(Some("x".to_string())));
    assert_eq!(s.stage, Stage::AwaitBranch);
    let (s, _) = s.step(Event::BranchCreated);
    assert_eq!(s.stage, Stage::AwaitExisting);
    let (s, _) = s.step(Event::ExistingFiles(vec![]));
    assert_eq!(s.stage, Stage::AwaitCreate);
    let (s, _) = s.step(Event::FileWritten);
    assert_eq!(s.stage, Stage::AwaitPullRequest);
    let (s, _) = s.step(Event::PullRequestOpened);
    assert_eq!(s.stage, Stage::Finished);
}

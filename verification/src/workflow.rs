//! The conversation with the repository host that turns one accepted
//! comment into a pull request, as a state machine: the server performs the
//! action that a step returns and hands the outcome back as the next event.
//!
//! The order is: read the `master` ref, create the comment's branch from
//! it, look up the post's comments file in the repository (on its default
//! branch, from which the comment's branch was just made), write the file on
//! the comment's branch (update it with the comment appended, or create it),
//! open the pull request, and send the visitor back to the post.
use vstd::prelude::*;
use crate::comment::{Comment, Committer, Post};
use crate::ident::{comment_id_of, law_comment_id_injective};
use crate::paths::{branch_name, branch_name_of, comments_path, comments_path_of};
use crate::reply::{accepted_reply, accepted_view, Reply, ReplyView};

verus! {

/// Where a submission stands: which outcome it waits for.
#[derive(PartialEq, Eq, Structural, Clone, Copy, Debug)]
pub enum Stage {
    AwaitMasterRef,
    AwaitBranch,
    AwaitExisting,
    AwaitUpdate,
    AwaitCreate,
    AwaitPullRequest,
    Finished,
}

/// Why a submission is given up. The server gives up on the request.
#[derive(PartialEq, Eq, Structural, Clone, Copy, Debug)]
pub enum Failure {
    /// The `master` ref could not be read.
    MasterRefUnavailable,
    /// The `master` ref points at neither a commit nor a tag.
    UnexpectedRefTarget,
    /// The comment's branch could not be created.
    BranchNotCreated,
    /// The lookup of the comments file found more than one file.
    SeveralFiles,
    /// The existing comments file could not be decoded.
    UndecodableFile,
    /// The existing comments file could not be updated.
    UpdateFailed,
    /// The new comments file could not be created.
    CreateFailed,
    /// The pull request could not be opened.
    PullRequestFailed,
    /// An outcome arrived that the current stage does not wait for.
    OutOfOrder,
}

/// A file that the lookup of the comments file found: its decoded text,
/// if it could be decoded, and its blob sha.
pub struct StoredFile {
    pub text: Option<String>,
    pub sha: String,
}

/// The outcome of the last action.
pub enum Event {
    /// The `master` ref: the sha it points at when that is a commit or a
    /// tag, nothing otherwise.
    MasterRef(Option<String>),
    MasterRefFailed,
    BranchCreated,
    BranchFailed,
    /// The files found at the comments path in the repository.
    ExistingFiles(Vec<StoredFile>),
    /// The lookup of the comments file failed: there is none yet.
    ExistingUnavailable,
    FileWritten,
    FileWriteFailed,
    PullRequestOpened,
    PullRequestFailed,
}

/// What an event is, with its texts as character sequences.
pub enum EventView {
    MasterRef(Option<Seq<char>>),
    MasterRefFailed,
    BranchCreated,
    BranchFailed,
    ExistingFiles(Seq<(Option<Seq<char>>, Seq<char>)>),
    ExistingUnavailable,
    FileWritten,
    FileWriteFailed,
    PullRequestOpened,
    PullRequestFailed,
}

/// The text of an optional string.
pub open spec fn opt_text(o: Option<String>) -> Option<Seq<char>> {
    match o {
        Some(s) => Some(s@),
        None => None,
    }
}

/// The files `fs` as (decoded text, sha) pairs.
pub open spec fn files_view(fs: Seq<StoredFile>) -> Seq<(Option<Seq<char>>, Seq<char>)> {
    fs.map_values(|f: StoredFile| (opt_text(f.text), f.sha@))
}

impl View for Event {
    type V = EventView;

    open spec fn view(&self) -> EventView {
        match self {
            Event::MasterRef(sha) => EventView::MasterRef(opt_text(*sha)),
            Event::MasterRefFailed => EventView::MasterRefFailed,
            Event::BranchCreated => EventView::BranchCreated,
            Event::BranchFailed => EventView::BranchFailed,
            Event::ExistingFiles(fs) => EventView::ExistingFiles(files_view(fs@)),
            Event::ExistingUnavailable => EventView::ExistingUnavailable,
            Event::FileWritten => EventView::FileWritten,
            Event::FileWriteFailed => EventView::FileWriteFailed,
            Event::PullRequestOpened => EventView::PullRequestOpened,
            Event::PullRequestFailed => EventView::PullRequestFailed,
        }
    }
}

/// What the server is to do next.
pub enum Action {
    /// Read the ref of the branch `name`.
    ReadRef { name: String },
    /// Create the branch `name` at the commit `sha`.
    CreateBranch { name: String, sha: String },
    /// Look up the file at `path` in the repository.
    ReadFile { path: String },
    /// Replace the file at `path`, whose blob is `sha`, by `content`, with a
    /// commit on `branch` made by `author`.
    UpdateFile { path: String, message: String, content: String, sha: String, branch: String, author: Committer },
    /// Create the file at `path` with `content`, with a commit on `branch`
    /// made by `author`.
    CreateFile { path: String, message: String, content: String, branch: String, author: Committer },
    /// Open a pull request from `head` into `base`.
    OpenPullRequest { title: String, head: String, base: String },
    /// Send the reply; the submission is done.
    Respond(Reply),
    /// Give up on the request.
    Abort(Failure),
}

/// What an action is, with its texts as character sequences.
pub enum Effect {
    ReadRef(Seq<char>),
    CreateBranch { name: Seq<char>, sha: Seq<char> },
    ReadFile(Seq<char>),
    UpdateFile {
        path: Seq<char>,
        message: Seq<char>,
        content: Seq<char>,
        sha: Seq<char>,
        branch: Seq<char>,
        author_name: Seq<char>,
        author_email: Seq<char>,
    },
    CreateFile {
        path: Seq<char>,
        message: Seq<char>,
        content: Seq<char>,
        branch: Seq<char>,
        author_name: Seq<char>,
        author_email: Seq<char>,
    },
    OpenPullRequest { title: Seq<char>, head: Seq<char>, base: Seq<char> },
    Respond(ReplyView),
    Abort(Failure),
}

impl View for Action {
    type V = Effect;

    open spec fn view(&self) -> Effect {
        match self {
            Action::ReadRef { name } => Effect::ReadRef(name@),
            Action::CreateBranch { name, sha } => Effect::CreateBranch { name: name@, sha: sha@ },
            Action::ReadFile { path } => Effect::ReadFile(path@),
            Action::UpdateFile { path, message, content, sha, branch, author } => Effect::UpdateFile {
                path: path@,
                message: message@,
                content: content@,
                sha: sha@,
                branch: branch@,
                author_name: author.name@,
                author_email: author.email@,
            },
            Action::CreateFile { path, message, content, branch, author } => Effect::CreateFile {
                path: path@,
                message: message@,
                content: content@,
                branch: branch@,
                author_name: author.name@,
                author_email: author.email@,
            },
            Action::OpenPullRequest { title, head, base } => Effect::OpenPullRequest {
                title: title@,
                head: head@,
                base: base@,
            },
            Action::Respond(r) => Effect::Respond(r@),
            Action::Abort(f) => Effect::Abort(*f),
        }
    }
}

/// One comment on its way to a pull request.
pub struct Submission {
    pub stage: Stage,
    /// The commenter's name.
    pub name: String,
    /// The branch that carries the comment.
    pub branch: String,
    /// The comments file of the post.
    pub path: String,
    /// The comment as an entry of the comments file.
    pub new_comment: String,
    pub author: Committer,
    pub redirect_url: String,
}

/// What a submission is, with its texts as character sequences.
pub struct SubmissionView {
    pub stage: Stage,
    pub name: Seq<char>,
    pub branch: Seq<char>,
    pub path: Seq<char>,
    pub new_comment: Seq<char>,
    pub author_name: Seq<char>,
    pub author_email: Seq<char>,
    pub redirect_url: Seq<char>,
}

impl View for Submission {
    type V = SubmissionView;

    open spec fn view(&self) -> SubmissionView {
        SubmissionView {
            stage: self.stage,
            name: self.name@,
            branch: self.branch@,
            path: self.path@,
            new_comment: self.new_comment@,
            author_name: self.author.name@,
            author_email: self.author.email@,
            redirect_url: self.redirect_url@,
        }
    }
}

/// `s` at stage `stage`, all else the same.
pub open spec fn at_stage(s: SubmissionView, stage: Stage) -> SubmissionView {
    SubmissionView { stage, ..s }
}

/// The branch that pull requests go into.
pub open spec fn base_branch() -> Seq<char> {
    "master"@
}

/// The message of the commit that adds a comment from `name`.
pub open spec fn commit_message_of(name: Seq<char>) -> Seq<char> {
    "Added comment from '"@ + name + "'"@
}

/// The title of the pull request for a comment from `name`.
pub open spec fn pull_request_title_of(name: Seq<char>) -> Seq<char> {
    "New comment from "@ + name
}

/// The comments file `existing` with the entry `new_comment` and a line
/// break after it.
pub open spec fn appended(existing: Seq<char>, new_comment: Seq<char>) -> Seq<char> {
    existing + new_comment + "\n"@
}

/// What follows the lookup of the comments file, given the files found.
pub open spec fn after_lookup(s: SubmissionView, files: Seq<(Option<Seq<char>>, Seq<char>)>) -> (Stage, Effect) {
    if files.len() > 1 {
        (Stage::Finished, Effect::Abort(Failure::SeveralFiles))
    } else if files.len() == 1 {
        match files[0].0 {
            Some(text) => (
                Stage::AwaitUpdate,
                Effect::UpdateFile {
                    path: s.path,
                    message: commit_message_of(s.name),
                    content: appended(text, s.new_comment),
                    sha: files[0].1,
                    branch: s.branch,
                    author_name: s.author_name,
                    author_email: s.author_email,
                },
            ),
            None => (Stage::Finished, Effect::Abort(Failure::UndecodableFile)),
        }
    } else {
        (
            Stage::AwaitCreate,
            Effect::CreateFile {
                path: s.path,
                message: commit_message_of(s.name),
                content: s.new_comment,
                branch: s.branch,
                author_name: s.author_name,
                author_email: s.author_email,
            },
        )
    }
}

/// The next stage and action of the submission `s` on the event `e`.
pub open spec fn transition(s: SubmissionView, e: EventView) -> (Stage, Effect) {
    match s.stage {
        Stage::AwaitMasterRef => match e {
            EventView::MasterRef(Some(sha)) => (
                Stage::AwaitBranch,
                Effect::CreateBranch { name: s.branch, sha },
            ),
            EventView::MasterRef(None) => (Stage::Finished, Effect::Abort(Failure::UnexpectedRefTarget)),
            EventView::MasterRefFailed => (Stage::Finished, Effect::Abort(Failure::MasterRefUnavailable)),
            _ => (Stage::Finished, Effect::Abort(Failure::OutOfOrder)),
        },
        Stage::AwaitBranch => match e {
            EventView::BranchCreated => (Stage::AwaitExisting, Effect::ReadFile(s.path)),
            EventView::BranchFailed => (Stage::Finished, Effect::Abort(Failure::BranchNotCreated)),
            _ => (Stage::Finished, Effect::Abort(Failure::OutOfOrder)),
        },
        Stage::AwaitExisting => match e {
            EventView::ExistingFiles(fs) => after_lookup(s, fs),
            EventView::ExistingUnavailable => after_lookup(s, Seq::empty()),
            _ => (Stage::Finished, Effect::Abort(Failure::OutOfOrder)),
        },
        Stage::AwaitUpdate | Stage::AwaitCreate => match e {
            EventView::FileWritten => (
                Stage::AwaitPullRequest,
                Effect::OpenPullRequest {
                    title: pull_request_title_of(s.name),
                    head: s.branch,
                    base: base_branch(),
                },
            ),
            EventView::FileWriteFailed => (
                Stage::Finished,
                Effect::Abort(
                    if s.stage == Stage::AwaitUpdate {
                        Failure::UpdateFailed
                    } else {
                        Failure::CreateFailed
                    },
                ),
            ),
            _ => (Stage::Finished, Effect::Abort(Failure::OutOfOrder)),
        },
        Stage::AwaitPullRequest => match e {
            EventView::PullRequestOpened => (Stage::Finished, Effect::Respond(accepted_view(s.redirect_url))),
            EventView::PullRequestFailed => (Stage::Finished, Effect::Abort(Failure::PullRequestFailed)),
            _ => (Stage::Finished, Effect::Abort(Failure::OutOfOrder)),
        },
        Stage::Finished => (Stage::Finished, Effect::Abort(Failure::OutOfOrder)),
    }
}

/// How far along the conversation a stage is.
pub open spec fn rank(stage: Stage) -> nat {
    match stage {
        Stage::AwaitMasterRef => 0,
        Stage::AwaitBranch => 1,
        Stage::AwaitExisting => 2,
        Stage::AwaitUpdate => 3,
        Stage::AwaitCreate => 3,
        Stage::AwaitPullRequest => 4,
        Stage::Finished => 5,
    }
}

/// Every step moves a submission forward, so a submission is finished
/// after at most five steps.
pub proof fn law_each_step_advances(s: SubmissionView, e: EventView)
    requires
        s.stage != Stage::Finished,
    ensures
        rank(transition(s, e).0) > rank(s.stage),
{
}

/// A submission only ever touches its own branch and its post's comments
/// file: the branch is created under the submission's name, the file is
/// looked up and written at the submission's path, written on its branch, and the
/// pull request goes from that branch into `master`.
pub proof fn law_changes_stay_on_comment_branch(s: SubmissionView, e: EventView)
    ensures
        match transition(s, e).1 {
            Effect::CreateBranch { name, .. } => name == s.branch,
            Effect::ReadFile(path) => path == s.path,
            Effect::UpdateFile { path, branch, .. } => path == s.path && branch == s.branch,
            Effect::CreateFile { path, branch, .. } => path == s.path && branch == s.branch,
            Effect::OpenPullRequest { head, base, .. } => head == s.branch && base == base_branch(),
            _ => true,
        },
{
}

/// The branch is created at exactly the commit that the `master` ref
/// reported, under the submission's branch name.
pub proof fn law_branch_at_master_commit(s: SubmissionView, sha: Seq<char>)
    requires
        s.stage == Stage::AwaitMasterRef,
    ensures
        transition(s, EventView::MasterRef(Some(sha))).0 == Stage::AwaitBranch,
        transition(s, EventView::MasterRef(Some(sha))).1 == (Effect::CreateBranch { name: s.branch, sha }),
{
}

/// Every commit is made by the submission's committer, with its name and
/// its email in their places, and says whose comment it adds.
pub proof fn law_commits_by_committer(s: SubmissionView, e: EventView)
    ensures
        match transition(s, e).1 {
            Effect::UpdateFile { author_name, author_email, message, .. } => author_name == s.author_name
                && author_email == s.author_email && message == "Added comment from '"@ + s.name + "'"@,
            Effect::CreateFile { author_name, author_email, message, .. } => author_name == s.author_name
                && author_email == s.author_email && message == "Added comment from '"@ + s.name + "'"@,
            Effect::OpenPullRequest { title, .. } => title == "New comment from "@ + s.name,
            _ => true,
        },
{
}

/// When the post has no comments file yet (none found, or the lookup
/// failed), the file is created holding exactly the new entry.
pub proof fn law_new_file_is_the_entry(s: SubmissionView, e: EventView)
    requires
        s.stage == Stage::AwaitExisting,
        e == EventView::ExistingUnavailable || e == EventView::ExistingFiles(Seq::empty()),
    ensures
        transition(s, e).0 == Stage::AwaitCreate,
        transition(s, e).1 matches Effect::CreateFile { path, content, branch, .. } && path == s.path
            && content == s.new_comment && branch == s.branch,
{
}

/// What an action does is read off its fields as they stand: each text of
/// the action is the text that its view reports, the commit author's name
/// as the name and its email as the email.
pub proof fn law_action_fields(a: Action)
    ensures
        match a {
            Action::ReadRef { name } => a@ == Effect::ReadRef(name@),
            Action::CreateBranch { name, sha } => a@ == (Effect::CreateBranch { name: name@, sha: sha@ }),
            Action::ReadFile { path } => a@ == Effect::ReadFile(path@),
            Action::UpdateFile { path, message, content, sha, branch, author } => a@ == (Effect::UpdateFile {
                path: path@,
                message: message@,
                content: content@,
                sha: sha@,
                branch: branch@,
                author_name: author.name@,
                author_email: author.email@,
            }),
            Action::CreateFile { path, message, content, branch, author } => a@ == (Effect::CreateFile {
                path: path@,
                message: message@,
                content: content@,
                branch: branch@,
                author_name: author.name@,
                author_email: author.email@,
            }),
            Action::OpenPullRequest { title, head, base } => a@ == (Effect::OpenPullRequest {
                title: title@,
                head: head@,
                base: base@,
            }),
            Action::Respond(r) => a@ == Effect::Respond(r@),
            Action::Abort(f) => a@ == Effect::Abort(f),
        },
{
}

/// A submission's view reports its fields as they stand, and an event's
/// view reports the sha and the found files as they are.
pub proof fn law_submission_and_event_fields(s: Submission, e: Event)
    ensures
        s@.stage == s.stage && s@.name == s.name@ && s@.branch == s.branch@ && s@.path == s.path@
            && s@.new_comment == s.new_comment@ && s@.author_name == s.author.name@ && s@.author_email
            == s.author.email@ && s@.redirect_url == s.redirect_url@,
        match e {
            Event::MasterRef(Some(sha)) => e@ == EventView::MasterRef(Some(sha@)),
            Event::MasterRef(None) => e@ == EventView::MasterRef(None),
            Event::ExistingFiles(fs) => e@ matches EventView::ExistingFiles(v) && v.len() == fs@.len()
                && forall|i: int| 0 <= i < fs@.len() ==> #[trigger] v[i] == (match fs@[i].text {
                    Some(t) => Some(t@),
                    None => None,
                }, fs@[i].sha@),
            _ => true,
        },
{
}

/// Pull requests go into `master`, and the first call reads its ref.
pub proof fn law_base_is_master()
    ensures
        base_branch() == seq!['m', 'a', 's', 't', 'e', 'r'],
{
    reveal_strlit("master");
}

/// A failed call gives the submission up, naming the call that failed; an
/// outcome that the stage does not wait for gives it up as out of order;
/// a lookup that finds several files, or a file it cannot decode, gives it
/// up too.
pub proof fn law_failures_named(s: SubmissionView, sha: Seq<char>, f: (Option<Seq<char>>, Seq<char>), g: (Option<Seq<char>>, Seq<char>), h: Seq<char>)
    ensures
        transition(at_stage(s, Stage::AwaitMasterRef), EventView::MasterRefFailed) == (Stage::Finished, Effect::Abort(Failure::MasterRefUnavailable)),
        transition(at_stage(s, Stage::AwaitMasterRef), EventView::MasterRef(None)) == (Stage::Finished, Effect::Abort(Failure::UnexpectedRefTarget)),
        transition(at_stage(s, Stage::AwaitBranch), EventView::BranchFailed) == (Stage::Finished, Effect::Abort(Failure::BranchNotCreated)),
        transition(at_stage(s, Stage::AwaitExisting), EventView::ExistingFiles(seq![f, g])) == (Stage::Finished, Effect::Abort(Failure::SeveralFiles)),
        transition(at_stage(s, Stage::AwaitExisting), EventView::ExistingFiles(seq![(None, h)])) == (Stage::Finished, Effect::Abort(Failure::UndecodableFile)),
        transition(at_stage(s, Stage::AwaitUpdate), EventView::FileWriteFailed) == (Stage::Finished, Effect::Abort(Failure::UpdateFailed)),
        transition(at_stage(s, Stage::AwaitCreate), EventView::FileWriteFailed) == (Stage::Finished, Effect::Abort(Failure::CreateFailed)),
        transition(at_stage(s, Stage::AwaitPullRequest), EventView::PullRequestFailed) == (Stage::Finished, Effect::Abort(Failure::PullRequestFailed)),
        transition(at_stage(s, Stage::AwaitBranch), EventView::MasterRef(Some(sha))) == (Stage::Finished, Effect::Abort(Failure::OutOfOrder)),
        transition(at_stage(s, Stage::AwaitPullRequest), EventView::FileWritten) == (Stage::Finished, Effect::Abort(Failure::OutOfOrder)),
{
}

/// The branch of a comment is never `master`, into which its pull request
/// goes.
pub proof fn law_comment_branch_is_not_master(id: Seq<char>)
    ensures
        branch_name_of(id) != base_branch(),
{
    reveal_strlit("comments/");
    reveal_strlit("master");
    assert(branch_name_of(id).len() >= 9);
}

/// Distinct submissions, which differ in time or random part, get
/// distinct branches.
pub proof fn law_distinct_comments_distinct_branches(t1: nat, n1: nat, t2: nat, n2: nat)
    requires
        t1 != t2 || n1 != n2,
    ensures
        branch_name_of(comment_id_of(t1, n1)) != branch_name_of(comment_id_of(t2, n2)),
{
    let a = comment_id_of(t1, n1);
    let b = comment_id_of(t2, n2);
    if branch_name_of(a) == branch_name_of(b) {
        let k = "comments/"@.len() as int;
        assert(a =~= branch_name_of(a).skip(k));
        assert(b =~= branch_name_of(b).skip(k));
        law_comment_id_injective(t1, n1, t2, n2);
    }
}

/// When the post already has a comments file, the file that is written is
/// the existing one, unchanged, followed by the new entry and a line break,
/// and it replaces the blob that was found.
pub proof fn law_existing_comments_kept(s: SubmissionView, text: Seq<char>, sha: Seq<char>)
    requires
        s.stage == Stage::AwaitExisting,
    ensures
        transition(s, EventView::ExistingFiles(seq![(Some(text), sha)])).0 == Stage::AwaitUpdate,
        transition(s, EventView::ExistingFiles(seq![(Some(text), sha)])).1 matches Effect::UpdateFile {
            path,
            content,
            sha: blob,
            branch,
            ..
        } && blob == sha && path == s.path && branch == s.branch && content.len() == text.len()
            + s.new_comment.len() + 1 && content.take(text.len() as int) == text && content.skip(
            text.len() as int,
        ).take(s.new_comment.len() as int) == s.new_comment && content.last() == '\n',
{
    reveal_strlit("\n");
    let c = appended(text, s.new_comment);
    assert(c.take(text.len() as int) =~= text);
    assert(c.skip(text.len() as int).take(s.new_comment.len() as int) =~= s.new_comment);
}

/// The calls that follow success: once the branch exists the comments file
/// is looked up at the submission's path; once the file is written the pull
/// request is opened from the comment's branch into `master` with the
/// commenter's name in its title; once it is open the visitor is sent back.
pub proof fn law_success_path(s: SubmissionView)
    ensures
        transition(at_stage(s, Stage::AwaitBranch), EventView::BranchCreated) == (Stage::AwaitExisting, Effect::ReadFile(s.path)),
        transition(at_stage(s, Stage::AwaitUpdate), EventView::FileWritten) == transition(at_stage(s, Stage::AwaitCreate), EventView::FileWritten),
        transition(at_stage(s, Stage::AwaitCreate), EventView::FileWritten) == (
            Stage::AwaitPullRequest,
            Effect::OpenPullRequest {
                title: "New comment from "@ + s.name,
                head: s.branch,
                base: seq!['m', 'a', 's', 't', 'e', 'r'],
            },
        ),
        transition(at_stage(s, Stage::AwaitPullRequest), EventView::PullRequestOpened) == (
            Stage::Finished,
            Effect::Respond(accepted_view(s.redirect_url)),
        ),
{
    reveal_strlit("master");
    assert(base_branch() =~= seq!['m', 'a', 's', 't', 'e', 'r']);
}

/// The pull request is opened only once the comments file is written.
pub proof fn law_pull_request_after_write(s: SubmissionView, e: EventView)
    ensures
        transition(s, e).1 is OpenPullRequest ==> (s.stage == Stage::AwaitUpdate || s.stage
            == Stage::AwaitCreate) && e is FileWritten,
{
}

/// The visitor is sent back to the post only once the pull request is
/// open, and then to the address the form named (a 303 to it whenever it
/// can be sent as a header value).
pub proof fn law_reply_after_pull_request(s: SubmissionView, e: EventView)
    ensures
        transition(s, e).1 is Respond ==> s.stage == Stage::AwaitPullRequest && e is PullRequestOpened
            && transition(s, e).1 == Effect::Respond(accepted_view(s.redirect_url)),
{
}

fn text_of(s: &str) -> (r: String)
    ensures
        r@ == s@,
{
    String::from_str(s)
}

fn commit_message(name: &String) -> (m: String)
    ensures
        m@ == commit_message_of(name@),
{
    let mut m = text_of("Added comment from '");
    m.append(name.as_str());
    m.append("'");
    m
}

fn pull_request_title(name: &String) -> (t: String)
    ensures
        t@ == pull_request_title_of(name@),
{
    let mut t = text_of("New comment from ");
    t.append(name.as_str());
    t
}

impl Submission {
    /// Starts the submission of `comment`, made by `post`, whose entry in
    /// the comments file is `new_comment`. The first action reads the
    /// `master` ref.
    pub fn begin(post: &Post, comment: &Comment, new_comment: String, content_dir: &str, author: &Committer) -> (r: (Submission, Action))
        ensures
            r.0@ == (SubmissionView {
                stage: Stage::AwaitMasterRef,
                name: comment.name@,
                branch: branch_name_of(comment.id@),
                path: comments_path_of(content_dir@, post.path@),
                new_comment: new_comment@,
                author_name: author.name@,
                author_email: author.email@,
                redirect_url: post.redirect_url@,
            }),
            r.1@ == Effect::ReadRef(base_branch()),
    {
        let s = Submission {
            stage: Stage::AwaitMasterRef,
            name: comment.name.clone(),
            branch: branch_name(comment.id.as_str()),
            path: comments_path(content_dir, post.path.as_str()),
            new_comment,
            author: author.duplicate(),
            redirect_url: post.redirect_url.clone(),
        };
        (s, Action::ReadRef { name: text_of("master") })
    }

    fn abort(self, why: Failure) -> (r: (Submission, Action))
        ensures
            r.0@ == at_stage(self@, Stage::Finished),
            r.1@ == Effect::Abort(why),
    {
        (Submission { stage: Stage::Finished, ..self }, Action::Abort(why))
    }

    fn after_files(self, files: &Vec<StoredFile>) -> (r: (Submission, Action))
        requires
            self.stage == Stage::AwaitExisting,
        ensures
            r.0@ == at_stage(self@, after_lookup(self@, files_view(files@)).0),
            r.1@ == after_lookup(self@, files_view(files@)).1,
    {
        if files.len() > 1 {
            return self.abort(Failure::SeveralFiles);
        }
        let message = commit_message(&self.name);
        if files.len() == 1 {
            let f = &files[0];
            assert(files_view(files@)[0] == (opt_text(f.text), f.sha@));
            match &f.text {
                Some(text) => {
                    let mut content = text.clone();
                    content.append(self.new_comment.as_str());
                    content.append("\n");
                    let action = Action::UpdateFile {
                        path: self.path.clone(),
                        message,
                        content,
                        sha: f.sha.clone(),
                        branch: self.branch.clone(),
                        author: self.author.duplicate(),
                    };
                    (Submission { stage: Stage::AwaitUpdate, ..self }, action)
                },
                None => self.abort(Failure::UndecodableFile),
            }
        } else {
            let action = Action::CreateFile {
                path: self.path.clone(),
                message,
                content: self.new_comment.clone(),
                branch: self.branch.clone(),
                author: self.author.duplicate(),
            };
            (Submission { stage: Stage::AwaitCreate, ..self }, action)
        }
    }

    /// Takes the outcome `event` of the last action and returns the
    /// submission at its next stage with the action to perform.
    pub fn step(self, event: Event) -> (r: (Submission, Action))
        requires
            self.stage != Stage::Finished,
        ensures
            r.0@ == at_stage(self@, transition(self@, event@).0),
            r.1@ == transition(self@, event@).1,
    {
        match self.stage {
            Stage::AwaitMasterRef => match event {
                Event::MasterRef(Some(sha)) => {
                    let name = self.branch.clone();
                    (Submission { stage: Stage::AwaitBranch, ..self }, Action::CreateBranch { name, sha })
                },
                Event::MasterRef(None) => self.abort(Failure::UnexpectedRefTarget),
                Event::MasterRefFailed => self.abort(Failure::MasterRefUnavailable),
                _ => self.abort(Failure::OutOfOrder),
            },
            Stage::AwaitBranch => match event {
                Event::BranchCreated => {
                    let path = self.path.clone();
                    (Submission { stage: Stage::AwaitExisting, ..self }, Action::ReadFile { path })
                },
                Event::BranchFailed => self.abort(Failure::BranchNotCreated),
                _ => self.abort(Failure::OutOfOrder),
            },
            Stage::AwaitExisting => match event {
                Event::ExistingFiles(files) => self.after_files(&files),
                Event::ExistingUnavailable => {
                    let none: Vec<StoredFile> = Vec::new();
                    assert(files_view(none@) =~= Seq::<(Option<Seq<char>>, Seq<char>)>::empty());
                    self.after_files(&none)
                },
                _ => self.abort(Failure::OutOfOrder),
            },
            Stage::AwaitUpdate | Stage::AwaitCreate => match event {
                Event::FileWritten => {
                    let title = pull_request_title(&self.name);
                    let head = self.branch.clone();
                    let action = Action::OpenPullRequest { title, head, base: text_of("master") };
                    (Submission { stage: Stage::AwaitPullRequest, ..self }, action)
                },
                Event::FileWriteFailed => {
                    if self.stage == Stage::AwaitUpdate {
                        self.abort(Failure::UpdateFailed)
                    } else {
                        self.abort(Failure::CreateFailed)
                    }
                },
                _ => self.abort(Failure::OutOfOrder),
            },
            Stage::AwaitPullRequest => match event {
                Event::PullRequestOpened => {
                    let reply = accepted_reply(self.redirect_url.as_str());
                    (Submission { stage: Stage::Finished, ..self }, Action::Respond(reply))
                },
                Event::PullRequestFailed => self.abort(Failure::PullRequestFailed),
                _ => self.abort(Failure::OutOfOrder),
            },
            Stage::Finished => self.abort(Failure::OutOfOrder),
        }
    }
}

} // verus!

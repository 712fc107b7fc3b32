# Laberbox

A comment server for static sites. A visitor submits the comment form; the
server stores the comment on a new branch of the site's GitHub repository, in
`{content_dir}/{post-path}/comments.yaml`, and opens a pull request for the
site owner to review.

## Layout

- `src/` — the verified library (Verus):
  - `intake.rs` — the first decisions on a request: the preflight reply, and a
    body (a form, or JSON decoded in `app/`) turned into a `Post` or refused;
  - `form.rs` — decoding of `application/x-www-form-urlencoded` bodies into a `Post`;
  - `comment.rs` — `Post`, `Committer`, `Comment`;
  - `ident.rs` — comment ids (`{time}_{random}`) and their injectivity;
  - `paths.rs` — the comments file of a post and the branch of a comment;
  - `reply.rs` — the HTTP replies (preflight, rejections, redirect back to the post);
  - `workflow.rs` — the conversation with GitHub as a state machine: each step
    takes the outcome of the last call and returns the next call to make;
  - `text.rs` — character helpers and decimal rendering.
- `app/main.rs` — configuration, the HTTP server (hyper, tower rate limit), JSON
  bodies (serde_json), YAML rendering of a comment (serde_yaml) and the GitHub
  calls (octocrab) that the state machine asks for.
- `tests/` — tests of the library.

## Configuration

`config.yaml` (or the file named by `LABERBOX_CONFIG`):

```yaml
listen: "127.0.0.1:3000"
token: "github_pat_..."
owner: "your-github-username"
repo:  "your-site-repo"
content_dir: "content"
committer:
  name: "Comment Bot"
  email: "comments@example.com"
# optional
github_api_url: "https://api.github.com"
rate_limit_secs: 10
```

# tistory

A command-line client for the Tistory blog service, written in Verus.

- `src/` is the verified library:
  - `text.rs`: whitespace trimming (`str::trim`), splitting at a separator
    (`str::split`), decimal numbers (`str::parse`, `{}`), each with a
    specification over character sequences;
  - `credentials.rs`: the four-line credential file, read and written, with
    the proofs that what is written reads back;
  - `oauth.rs`: the login decision, the OAuth URLs, and reading the
    authorization code and the access token;
  - `api.rs`: the category listing and post requests;
  - `post.rs`: post files (title, blank line, Markdown body rendered to
    HTML by comrak) and file stems of Unix paths;
  - `command.rs`: the command line.
- `app/` is the program around it: files, environment, HTTPS (hyper) and
  JSON (serde).
- `tests/` runs the library on concrete values.

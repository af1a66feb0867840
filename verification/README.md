# github_submodule_hook

A service that updates a git submodule to a given commit on behalf of an
authenticated user, either on an explicit request or when a GitHub or GitLab
webhook reports that a branch moved.

- `src/` is the verified library (Verus): the permission tree
  `user -> owner -> repository -> branch -> submodules`, the user file
  (`{username} = {base64(sha512(token))}` per line), token generation and
  storage, the hook registry, the reading of webhook payloads, the plan of
  hooks to run, the server's decisions per request, and the state machine that
  decides each git data API call of a submodule update from the answer to
  the last one.
- `app/` is the program around it: the command line (clap), configuration
  and user files, the HTTP server (rocket) and the calls to GitHub (octorust).
- `tests/` runs the library on concrete values.

# gws

The decision core of a command line tool for Google Workspace, written in Rust and verified with
Verus. It covers two commands: the server that offers API methods to clients of the Model Context
Protocol over standard input and output, and the command that sends mail.

The library does no input or output. A server session (`session`) is told what happened with an
`Event` and says with an `Action` what to do next: read a line, write a reply, resolve a service,
fetch a discovery document, obtain a token, run a method. Sending mail is planned as one request.

## Layout

- `src/` is the library. Every function states what it returns.
  - `session` is the server session, `protocol` its requests and responses, `call` the calls of
    tools, `tools` the list of tools, `config` and `cli` what the server is started with.
  - `helpers/gmail/send` composes and plans the sending of a message.
  - `discovery`, `executor`, `error` and `json` hold the data; `uploads`, `encoding` and `text` are
    the rules underneath.
  - `session_laws`, `run_laws`, `routing` and `order_laws` hold what is proved of these together,
    as proof functions whose names begin with `law_`. Others stand beside the functions that they
    are about.
- `tests/` runs the library with the crates that it calls.
- `app/` is the part that talks to the world.

## What is taken on trust

The calls into `serde_json`, `base64`, `clap` and `std::path` are wrapped in small functions whose
contracts are not proved. The doc comment of each says what is claimed.

Which paths are absolute, and how they are split, differs from platform to platform. A file is
uploaded only where the platform says that its path is relative and holds no step to a parent
directory. Where that answer is the same on every platform it is stated: in full for paths that do
not begin with `/` and hold neither `\` nor `:`.

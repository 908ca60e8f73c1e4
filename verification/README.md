# pg-kinetic-proxy

The decisions of a PostgreSQL wire proxy, as a library whose functions carry contracts that Verus
proves, and the ordinary Rust around it.

- `src/` is the library. It holds no sockets, clocks or files: it takes bytes, settings and
  readings as plain values and says what to do.
  - `wire`, `replies`, `buffer`, `buffers`, `engine`, `io_runtime`: messages, cycles and how
    answers pass through the proxy.
  - `auth`, `secrets`, `backend_query`, `crypto`: logins at both ends.
  - `config`, `modes`, `runtime`, `security`, `address`, `clock`, `double`: settings and plain
    values.
  - `cancel`, `capacity`, `drain`, `lifecycle`, `pause`, `health`, `limits`: the life of the
    process and of its sessions.
  - `policy`, `guardrails`, `audit`, `routing`, `mirror`, `adaptive`, `control`: what happens to
    requests beside their answers.
  - `admin`, `metrics`, `snapshot`, `snapshot_store`, `benchmark`, `compatibility`, `json`: what
    the proxy tells of itself.
  - `text`, `order`: strings as sequences of characters.
- `tests/` runs the library on concrete values.
- `app/` does the input and output: it reads, calls the library, and performs what the library
  decided.

Public proof functions whose names begin with `law_` state properties that span several
functions. A struct whose name ends in `Facts` is the mathematical model of the type beside it.

What is taken from outside crates stands behind wrappers in `buffer`, `buffers`, `crypto`, `json`,
`audit`, `policy` and `text`; each says in its doc comment which function it calls and what is
believed of it.

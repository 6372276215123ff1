# ex_moq

The decision logic of a Media over QUIC binding for Elixir, verified with Verus: which
catalog entry a track format becomes and how it is read back, which tracks a broadcast
carries, which subscription is served next, what the owning process is told, and when a
session or a consumer ends.

- `src/` is the verified library.
  - `track_format`, `web_codecs`, `frame`: formats, catalog entries, containers, timestamps.
  - `broadcast_producer`, `native`: publishing, and the calls that Elixir makes.
  - `broadcast_consumer` with `subscription_queue`: following a broadcast from one task;
    `subscriptions` and `pump` serve each track from a task of its own.
  - `track`: tracks that are held as resources.
  - `messages`, `reply`, `session`: what Elixir is told and answered.
  - `membrane`: the binding for Membrane pipelines.
  - `monitor`: a program that prints the frames of a broadcast.
  - `stack`, `text`: the few calls of other crates that only compute, taken on trust.
  - `cmaf`: which init segments are handed to the parser.
  - `table`: a small table keyed by names; `tokens`: walking a map keyed by tokens.
- `app/` holds the handles of the MoQ stack, the tasks and the Elixir terms.
- `tests/` runs the library, also against the MoQ stack in one process.

A handle of the stack is a type parameter of the library, and what it does comes in as a
function that takes the handle and gives it back. The owning process, the runtime that tasks
are started on, a command queue and a catalog are handles too. A contract says for each of them
how it came by its last state: by a chain of calls, in that order, or by none, where it comes
back as it was. A queue that is only pushed to is lent instead, to a function that can be called
once. The order of calls on two handles that no call takes together is left open.

The parser of CMAF init segments is called only on segments that it gets through. `cmaf` looks
through the boxes that it would read first, for how deep they nest and how much room they claim.

# typesafe

A client core for TypeSafe's System One API, written in Verus.

System One answers typed questions (Noul, Choice, Score) about a piece of
state. This crate holds what the client decides, each function with a
contract that Verus proves:

- `ordered`: an insertion-ordered string-keyed map (keys stay distinct; a
  repeated key is replaced in place).
- `question`: the three question types and their local validation.
- `client`: requests and their validation, client settings resolved from the
  configuration and the environment's values, how one HTTP outcome is judged,
  what follows each attempt (finish, or wait and retry), and how many
  attempts a call makes.
- `retry`: the retry policy: which statuses to retry, exponential backoff with
  a ceiling, jitter in millionths of the delay, and `retry-after` parsing.
- `error`: the error taxonomy, the status-to-error mapping, and messages.
- `json`: the parts of an error body read to find a human-readable detail,
  with the body parsed by `serde_json`.
- `answer`: answers and their lookup by question id, generic over the
  representation of a probability.
- `text`, `time`: trimming, decimal rendering and parsing, truncation by
  characters, and nanosecond spans.

`app/` holds the network side: the reqwest transport, the JSON wire formats
(serde), the retry loop's sleeps, environment lookup, logging, and the
floating-point arithmetic on probabilities (ranking, margins, rounding).

# typesafe

A client for the [TypeSafe AI](https://typesafe.ai) API whose rules are verified with Verus.

`src/` is the verified library. It holds no I/O: it configures clients, builds and validates
requests, decides about retries and their delays, reads responses, and says what to log.

| Module | What it holds |
| --- | --- |
| `client` | configuration, and the calls that a client prepares |
| `exchange` | the attempts and waits of a call, step by step, with what is logged |
| `retry` | retry policies, overrides, server delays, and backoff |
| `headers` | merging of header lists, and header maps |
| `errors` | errors, and the messages for unsuccessful responses |
| `questions`, `types` | questions, requests, options, and answers |
| `models` | the Models resource |
| `response` | responses and their bodies |
| `logging` | levels, entries, and redaction of credentials |
| `json`, `text`, `env`, `runtime` | values, texts, and what the surroundings give |
| `binary64`, `arithmetic` | IEEE 754 numbers by their bits |

`app/` is the asynchronous client around it: it sends requests with `reqwest`, waits with `tokio`,
draws random numbers, converts native floating-point numbers, and writes logs.

A call is driven like this:

1. `TypeSafeClient::system_one` or `Models::list` takes a number from a `RequestCounter`, which the
   requests of a client share, and gives an `ApiCall`.
2. `ApiCall::start` gives the first `Step`.
3. `Step::Send` asks for a request to be sent, and takes a `Report` of what came of it;
   `Step::Wait` asks for a wait, and takes whether the caller cancelled.
4. `Step::Done` is the result.

Numbers that are not whole, such as delays and probabilities, are `Binary64` values: the bits of an
IEEE 754 number.

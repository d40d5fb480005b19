# socket-swap

A shim that serves the Docker Engine API (on a Unix socket and, optionally,
on TCP) and runs each container as a Kubernetes Job.

- `src/` is the library, written in Verus. It holds Docker's multiplexed log
  framing, the Job names, the Job manifest for a container, the Docker view
  of a Job's state, request routing, the wait and cleanup decisions and the
  configuration defaults. Verus proves the contract of each of its functions,
  except for a few small wrappers (marked `#[verifier::external_body]`) around
  calls into other crates, whose contracts are trusted as those crates
  document them. `src/laws.rs` states and proves the properties that span
  several functions.
- `app/` is the program around it: the HTTP server, the Kubernetes API calls
  (retried with `backon` as a Pod may not exist yet), the JSON forms of the
  Docker messages, reading the environment, and the loops that wait for a Job
  and sweep finished Jobs as the library decides.
- `tests/` exercises the library on concrete inputs.

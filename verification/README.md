# wasi_runtime

A capability-secured WASI runtime for running untrusted guest code next to a human and an agent. What
a guest gets (filesystem roots, environment variables, loopback ports, resource budgets) is granted
explicitly and denied otherwise; risky requests wait for a human; every session ends in an audit
trail.

The library in `src/` is written and proved in Verus. It decides and computes, and it starts no
thread, opens no file and reads no clock:

- `capability`, `path`, `command`: grants, host paths, requests and the session lifecycle.
- `policy`: which requests are risky, which variables and sockets a grant stands for.
- `runtime`, `context`, `store`: component admission, the plan for one guest store, and what
  Wasmtime is told about it.
- `pipe`, `watch`: bounded output under one budget, the epoch watchdog and the output reader.
- `broker`: the queue, approvals, cancellation, expiry and the audit trail, as one state machine.
- `native`, `cancel`: the closed native boundary and the cancellation signal.
- `laws`: what holds of sessions and the broker over any sequence of steps.

Calls into Wasmtime and into parts of the standard library without a specification stand behind
small trusted items in `path`, `capability`, `runtime`, `context` and `store`; each says in its
documentation what is believed of the call.

`app/` carries the decisions out: threads, clocks, files, sockets and the guests themselves.
`tests/` drives the library from outside, with real guests where a session runs.

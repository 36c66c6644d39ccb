# FGGB, the Frida GameGuardian bridge

A resident controller for aarch64 Android. It keeps a bridge agent injected into GameGuardian
(GG), whose scripts can then run Frida JavaScript in GG's target, and it offers the same over
HTTP on the loopback: inject a script into a process, read back what it says, call its
`rpc.exports`.

## Layout

* `src/` is the library, verified with Verus.
  * `engine/` is the heart of it: the session registry (`mod.rs`, `model.rs`), the commands
    (`command.rs`), message capture (`session.rs`), the bridge protocol (`bridge.rs`), the steps by
    which work is done (`step.rs`), the loop over requests (`actor.rs`), and what holds across
    requests (`laws.rs`) and over everything that ever happens to the loop (`history.rs`).
  * `http/` and `error.rs` say which command a request becomes and what its answer becomes.
  * `gg.rs` finds GG, `watchdog.rs` keeps the bridge in it.
  * `json.rs` describes `serde_json::Value`; `text.rs` is white space, numbers and substrings.
* `app/` is the program around it: Frida, files, channels, the HTTP server.
* `tests/` runs the library on concrete values.

## How the engine works

The engine never calls Frida. It turns a command into a chain of steps: *attach to this process*,
*create this script*, *post this text*, and so on. The engine thread of `app/` does what a step
says and hands the outcome back, until an answer comes out. The loop takes one request at a time,
and only the answer to a shutdown ends it.

## Endpoints

| Method and path | Purpose |
|---|---|
| `POST /`, `POST /inject` | Inject the body into `?pid=`; optional `&name=`, `&format=json`. Answers with the session id. |
| `GET /messages/{id}` | Drain the session's buffered messages. |
| `POST /rpc/{id}` | `{"function":"add","args":[2,3]}` calls `rpc.exports.add(2,3)`. |
| `GET /exports/{id}` | List the session's rpc exports. |
| `GET /sessions` | List the live sessions. |
| `DELETE /session/{id}` | Unload the script and detach the session. |
| `GET /health` | `{status, frida, sessions}`. |

## What is trusted

The contracts in `json.rs` of the calls into `serde_json`, and that of `str::trim` in `text.rs`.
Everything else in `src/` is proved.

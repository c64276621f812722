# cdp_stream

Decision logic of a browser screencast stream, verified with Verus.

A background task sits between a browser, reached over the Chrome DevTools
Protocol, and the viewers that watch the page. It starts and stops a screencast as
viewers come and go, passes frames, navigations, console calls and page errors on, and
tells which tool of the page was invoked and what it answered.

- `src/stream.rs`: the state machine, from a wake-up to the next state and the actions
- `src/event.rs`: what an event of the browser calls for
- `src/in_flight.rs`: the bounded table that names the tool of an answered invocation
- `src/payload.rs`: payloads written by the page, cut to a limit in whole characters
- `src/message.rs`, `src/command.rs`, `src/action.rs`: what goes out
- `src/tabs.rs`: the addresses in the list of tabs
- `src/json.rs`, `src/value.rs`: JSON trees, and their way to and from `serde_json`
- `app/`: the asynchronous task, which waits, locks and sends

# matrix_sync

The decisions that a Matrix client takes while processing the response of a
`/sync` request, with proofs that they meet their contracts.

- `src/sync.rs`: the processed response (events as raw JSON, identifiers as
  strings, maps as their entries in key order), the room updates, the sync
  token bookkeeping of the sync loop and the delay between two requests.
- `src/dispatch.rs`: the dispatcher, a state machine that answers, one at a
  time, what the client does next with a response: which handlers run on
  which lists of events, which rooms are looked up and updated, when sync
  gaps are signalled and when notification handlers are prepared and run.
- `src/dispatch_laws.rs`: what every dispatch satisfies: the order of a
  room's handlers, the order of the whole dispatch when no handler fails,
  the end of the dispatch at the first failure, and its termination.
- `src/key_order.rs`: the order of identifiers, and the check that the maps
  of a response are in key order.
- `src/response_data.rs`: what each action of the dispatcher takes from the
  response (room identifiers, event lists, notification entries, room
  updates).
- `src/room_channels.rs`: delivery of room updates on `tokio` broadcast
  channels.
- `src/error.rs`, `src/cross_signing.rs`: the error type and its messages;
  the status of the private cross-signing keys.
- `app/`: the asynchronous side that runs the dispatcher against a client,
  holds the locks and the clock, displays errors, and exposes the
  cross-signing status to Node.js.

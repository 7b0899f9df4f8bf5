# jetfeed

Follows a Jetstream event stream, matches its commits against feeds, and writes
the matched entries to feed storage together with a cursor to resume at.

The library in `src/` holds every decision, verified with Verus:

- `aturi`: the DID of an AT-URI
- `connect`: the subscription URL, the user agent header, the opening update
- `frame`: websocket frames and their decompression
- `timestamp`, `decimal`: event times in readable form
- `consumer`: the consumer task and its sessions
- `writer`: the writer task
- `history`, `durability`, `pipeline`: what holds of a session, of the writer,
  and of both together, over everything they have been told

A session and the writer task hold no socket, timer, matcher, channel or
database. They are told what happened and answer what is to be done next; the
code in `app/` does it. The central guarantee is in `pipeline`: a persisted
cursor never runs ahead of entries that are not yet in the storage, and never
falls behind the cursor that the connection resumed at.

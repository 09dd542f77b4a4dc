# buckwild_protocol

The protocol layer of a port-hopping transport, written in Verus. Nearly every
function in `src/` carries a contract that Verus proves; a few small
constructors and accessors have none. The calls into outside code (HMAC-SHA256
from ring, random jitter from rand, the concurrent maps of dashmap, the system
clock and a few std conversions) go through trusted wrappers whose contracts
are taken on trust, not proved.

- `packet/`: the adaptive packet header and the packet structures with their
  wire formats (`header`, `structures`), what reading back a written packet
  gives (`roundtrip`), HMAC tags (`hmac`), packet builders (`builder`), replay
  protection (`replay`) and the parser (`parser`).
- `fragmentation/`: splitting and reassembly (`engine`), overlap detection,
  rate limiting, security checks and fragment storage.
- `state`: the connection state machine; `timeout`: retransmission timeouts
  and backoff; `edge_cases`, `boundary_conditions`, `enumeration_detection`:
  protocol edge cases, boundary conditions and enumeration attacks.
- `types`, `values`, `error`, `codec`, `text`, `constants`: the value types,
  errors, big-endian encoding and decimal text the rest is built on.

Times are passed in explicitly (`*_at` functions); the functions without the
suffix read the system clock. `app/` holds the asynchronous runtime glue:
a tokio-driven timeout manager and conversions of network addresses.

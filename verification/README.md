# bsv_messagebox_client

A client for MessageBox servers: store-and-forward messages between the holders of identity keys,
encrypted end to end, delivered by mail or live, with payments between peers.

The library under `src/` holds the client's logic, verified with Verus. It makes no call that
waits: whatever a wallet, a server or the overlay has to answer is a step that hands out a plain
request and takes the reply. `app/` runs those steps with a wallet of the BSV SDK, authenticated
HTTP and the live connection.

| Modules | What they hold |
|---------|----------------|
| `types`, `wallet`, `error`, `delivery` | The records, the wallet's requests, errors, delivery modes |
| `text`, `codec`, `json`, `collections` | Texts, notations, JSON, sets of texts |
| `chain`, `beef` | Keys, scripts and transactions |
| `client` | The client's state, initialization, answers of servers |
| `encryption` | Bodies, envelopes and message identifiers |
| `sending`, `send_list`, `message_payment` | Messages to one and to several recipients, and their fees |
| `listing`, `inbox`, `delivery_fee`, `adapter` | Listing, reading and acknowledging messages |
| `websocket`, `live`, `socket_transport` | The live connection, live messages, framed events |
| `peer_pay`, `payment_requests`, `request_review` | Payments between peers and requests for them |
| `permissions` | Permissions, quotes and notifications |
| `host_resolution` | Advertised hosts and registered devices |

What the library has from outside (the BSV SDK, `serde_json`, `base64`, `hex`, `rand`) stands
behind small functions in `chain`, `json` and `codec`, whose contracts are believed. Everything else
is proved, down to the laws that stand beside the functions they are about.

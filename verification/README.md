# cc_switch

The LAN broadcast and usage push services of a desktop usage monitor, with
their logic verified by Verus.

- `src/` — the verified library:
  - `text`, `number`: Unicode whitespace, trimming, splitting into pieces and
    words, decimal formatting and integer parsing (as std's `FromStr`).
  - `ipv4`: dotted-decimal IPv4 addresses and the /24 subnet broadcast address.
  - `local_ip`: the LAN address shown in `ipconfig`, `ifconfig` and
    `ip -o -4 addr show` output.
  - `lan_broadcast`: the broadcast on/off state, the UDP announcement and its
    targets, date ranges (today, the last N days of the trends) and query
    parameters of the HTTP endpoints, and the
    query for logs whose stored cost is zero.
  - `usage_push`: when the push worker runs (never more than one), the plan
    of each round, cost filling, and how far the pushed log ids advance.
  - `device`: the `[MACOS:name]` / `[PC:name]` device name and the device id.
  - `clock`: the current time, the local date, and local wall times as
    instants, read through chrono.
- `app/` — the I/O around it: the Axum HTTP server, UDP sockets, processes
  and environment, the push HTTP client, and the JSON forms of the data.
- `tests/` — tests of the library on concrete values.

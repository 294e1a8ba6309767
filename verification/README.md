# fac_test

A LAN batch burn-in (aging) tool for BM1684X SoC devices: it scans a subnet
for SSH devices, logs in with a list of known credentials, uploads a burn-in
test archive over SFTP (with retries), unpacks and starts it in the
background, polls until it ends and reports `QA_AGING_PASS` / `QA_AGING_FAILED`
per device, behind a small web interface.

The decisions of the tool are a Verus-verified library (`src/`):

- `ipv4` – dotted-decimal text in both directions, and the scan range of an
  interface (its subnet, or `.1`–`.254` of its /24 on large subnets).
- `scan` – the scan plan in batches, and the login probe of one host as a
  state machine.
- `session` – the retry rule for opening an SSH session, and when an upload
  reports progress.
- `workflow` – the per-device burn-in workflow as a state machine, and the
  lines of the device log files.
- `state` – the state behind the web interface and what each request and
  each worker report does to it.
- `remote` – the remote commands and the reading of their output (serial
  number, MAC address, verdict marker).
- `types`, `text`, `web` – device states, durations, text helpers, routes
  and the port argument.
- `platform` – the few calls into `chrono`, `if-addrs`, `serde_json` and
  `std::path`, each behind a small trusted function.

`app/` is the program around it: the HTTP server (`tiny_http`), the SSH and
SFTP work (`ssh2`, `socket2`), threads, files and the browser.

# nst

A network speed test: download and upload throughput and idle latency against
Cloudflare's public speed-test endpoint.

- `src/` is the library, verified with Verus: the median of the latency Samples
  (`median`, `latency`), the summing of Stream byte counts and the abort on the first
  failed Stream (`tally`), each Stream's decisions up to its deadline (`stream`), the
  exact transfer rate and the order of a Measurement Run and its settings
  (`measurement`), and the endpoint's request addresses (`endpoint`).
- `app/` is the command-line program around it: the HTTP transfers, the async Streams,
  the clock, the progress bars, and the floating-point conversion to Mbps and
  milliseconds.
- `tests/` exercises the library on concrete values.

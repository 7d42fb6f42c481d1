# fastlane

The verified core of an RFC 2544 network benchmarking tool.

- `src/` is the library, verified with Verus: the test packet format
  (signature, payload pattern, UDP checksum, batch sizing), the dataplane
  rings, payload generation, the integer settings of a run and their
  defaults, the frame sizes a run covers, the order statistics of latency
  samples, the back-to-back burst search and threshold, and the frame counts
  and stopping rules of the frame loss test.
- `app/` is the command-line program around it: argument parsing, loading
  and saving configuration files, result records with their JSON/CSV forms,
  and the test runners, whose rates and loss ratios are floating point.
- `tests/` exercises the library.

# RustSniffer

A packet capture and traffic analysis tool. The library under `src/` holds
the logic, each public function with a contract proved by Verus; the program
under `app/` holds what the library leaves to the outside world (the capture
device, signals, the SQLite database, files, logging output).

Library modules:

- `capture` – interface selection and the capture engine's decisions (when
  to stop, counting, traffic sampling).
- `protocol` – Ethernet frame parsing (header slicing by etherparse), ICMP
  descriptions, TCP stream reassembly per flow.
- `dpi` – JA3/JA3S fingerprints of TLS hellos (MD5 by the md-5 crate),
  classification by detection verdict and well-known ports.
- `config`, `cli` – settings, their defaults, and how defaults, the
  configuration file, the environment and the command line combine.
- `storage` – metadata rows and queries, the PCAPNG encoding, daily capture
  files, retention rules.
- `logging` – log level names and size-based log rotation.
- `common` – errors, flow types, address text, data locations.

Laws of the library are public proof functions next to the code they
speak of (their names start with `lemma_`).

# pqc_telemetry

A post-quantum secured vehicle-telemetry link and its benchmarks, with the
logic verified by Verus.

- `src/` is the verified library:
  - `base64`, `decimal`, `float_syntax`, `text`: text encodings (standard
    base64, decimal numbers, the syntax of floating-point literals);
  - `framing`, `nonce`, `receiver`, `session`: the telemetry frames (nonce
    field, time field, payload), replay protection and the receiver's
    side of a connection;
  - `protocol`, `control`, `crypto`: key distribution by the control plane
    (AES-ECB and ML-DSA-87), the signed request, the ML-KEM-512 key
    exchange and the encrypted messages;
  - `json_doc`: the JSON document built from a CSV record;
  - `stats`, `bench`, `cipher_bench`, `rc_ml_dsa`, `ntru_bench`,
    `primitives`, `clock`: latency histograms and the benchmarks of ML-DSA
    (`fips204` and `ml-dsa`), ML-KEM, LightSaber, NTRU Prime block
    encryption, Ed25519, AES-256-GCM and ChaCha20.
- `tests/` runs the library on concrete values.
- `app/` holds the programs: the control plane, the client, the receiver,
  the benchmark drivers and a few experiments (`pqc_telemetry_app <command>`).

The control plane's keys are read from a file of three base64 lines (AES
key, public key, private key) named by `PQC_KEYS`; `key-for-control`
prints them.

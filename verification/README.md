# zkp_verifier

Non-interactive Schnorr identification on secp256k1 for a bank verifier,
with replay protection, a length-delimited frame codec and the binary wire
forms of its messages, verified with Verus.

- `src/` is the verified library: the proof engine (`zkp_core_engine`), the
  curve and hash operations it calls in `k256`/`sha2` (`curve`), replay
  protection (`replay`), framing (`codec`), the messages and their bincode
  layout (`protocol`, `wire`), the bank's decision on a request
  (`authentication`), the Kafka loops' decisions (`polling`), and small helpers (`encoding`, `text`, `hex`, `clock`).
- `app/` holds the programs around it: the SQLite registry, the Tokio TCP
  server and client, the Kafka prover and verifier, JSON, and argument
  handling. Run `zkp_verifier <command>` with one of `bank_server`,
  `enroll_user`, `user_client`, `kafka_prover`, `kafka_verifier`.
- `tests/` runs the library on concrete values.

# babe_epoch_fix

Repairs the `babe_epoch_changes` entry of a Substrate node's ParityDB database
when epoch 39644 was announced with an empty authority set.

- `src/pattern.rs`: the broken epoch prefix, the repaired header, the replacement
  authority list, and the searches for them in a blob.
- `src/patch.rs`: the splice that repairs the entry, the laws it obeys, and the
  decision a patch run takes (`plan_patch`) or an info run reports (`inspect`).
- `src/cli.rs`: command-line parsing.
- `src/layout.rs`: the database's column settings and the key of the blob.
- `app/main.rs`: the program, which opens the database with `parity-db`, reads
  and writes the blob and the backup file, and prints what the library decided.

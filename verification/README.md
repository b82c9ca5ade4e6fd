# corro_types

Subscription bookkeeping for a replicated SQLite store, written in Verus.

`src/` is the verified library:

- `ast`, `schema`: the parts of a parsed SELECT statement and of the
  database schema that column extraction reads.
- `db`: which tables and columns a SELECT statement reads
  (`ParsedSelect::extract_select_columns`), specified step by step over the
  statement and proved against that specification; `insert_col` expands
  generated columns into the stored columns they are computed from.
- `columns`, `candidates`, `text`: column sets, alias tables, candidate
  changes, unquoting.
- `handle`: a running subscription as the rest of the system sees it, and
  which changes it takes as candidates.
- `manager`: the registry of running subscriptions, by id and by query;
  its operations keep it consistent (each handle under its own id, each
  query naming the handle subscribed to it) when given unused ids.
- `config`: the matcher's event-loop configuration.
- `cert_params`: certificate parameters with a model of what they hold,
  kept in step by the only functions that set them; key generation,
  signing, and the certificate with its key and encodings as signed.
- `tls`: the root CA, server and client certificates of the cluster, each
  stated to be made from its profile.

`app/` holds what talks to the database, to other tasks and to the
operating system: reading changes and rows, the shared registry behind a
lock, signal streams, error types with their messages, and the conversion
from `sqlite3_parser`'s syntax tree.

# pass_sys

A password store in the format of `pass`, the standard unix password
manager: a directory tree of OpenPGP-encrypted `.gpg` files, with `.gpg-id`
files naming the recipients of each folder.

The library (`src/`) is verified with Verus. It holds the rules of the
format and every decision of the store's operations:

- `paths`, `store`: entry names to files, the refusal of names that escape
  the store, the symlink guard, and the lookup of the nearest `.gpg-id`.
- `text`, `ids`: `.gpg-id` parsing and rendering (`str::lines` and
  Unicode-whitespace trimming), the first line of an entry.
- `listing`, `sort`: the recursive walk for entry names and their order.
- `generate`: password generation by rejection sampling.
- `ops`: `show`, `insert`, `remove`, `copy`, `rename`, `init` and the
  existence check, each as a sequence of outside work (a file read, a GnuPG
  call) and verified decisions.
- `error`, `secret`: errors and their messages; UTF-8 decoding and the
  wiping of plaintext buffers.

`app/` runs those operations against the real filesystem, GnuPG (through
the `gpgme` crate), `tempfile` for atomic writes and `/dev/urandom`, and
offers the store's API with `Display`able errors.

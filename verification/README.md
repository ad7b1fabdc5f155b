# digital_paper

A client for digital paper devices whose logic is verified with Verus.

## Layout

- `src/` is the verified library.
  - `domain`, `errors`: the types that operations speak of.
  - `text`, `numbers`, `order`, `paths`, `bytes`, `json`: texts, numbers, bytes and
    JSON trees, each with a mathematical model.
  - `crypto`, `pairing`: the pairing protocol, from the key exchange to the
    registration of new credentials.
  - `http`, `session`: requests, replies, logins, and calls of a device's interface.
  - `entries`, `requests`, `programs`, `provider`: the operations on a device.
  - `discovery`: where devices are looked for and how they are recognised.
  - `listing`, `cli`: walking folders, and the reports of the command line tool.
  - `tree`, `tui`, `gui`: the state of the user interfaces.
- `tests/` runs the library on concrete values.
- `app/` is the program around it: the command line tool, the terminal interface and
  the desktop interface.

## How the library is driven

An operation that takes several requests is a function of the answers so far. It
returns what to ask for next, a failure, or its result. The program around it keeps
the answers and calls the function again until it is done. The same holds for
pairing, logins, searches and the walk through folders. The user interfaces are
state machines: an event gives the next state and an effect to perform.

Calls of other crates (JSON, base64, percent encoding, digests, ciphers, big numbers,
key generation, signatures, random bytes, UUIDs, screen layout) stand behind small wrappers whose
contracts say what is relied on.

# InputShare

One keyboard and mouse across several computers. Configure the workspace once, pair
the computers once, and every boot afterwards they find each other, merge what
changed meanwhile, and resume.

## Layout

- `src/` is the library: the workspace document and how copies of it converge,
  cursor routing, the handshake and the encrypted channel, peer and session state,
  the routing of captured input, key codes, persistence steps, and the commands of
  the terminal and of the window. Verus proves every function here against its
  contract, but for those that call another crate or the standard library (see
  below).
- `app/` is the program around it: sockets, files, operating-system input and
  displays, JSON, and the window. It performs what the library decides and hands back
  what happened.
- `tests/` runs the library on concrete values.

## What is taken on trust

Cryptography, hexadecimal text, identifiers, the clock and the classification of
whitespace come from other crates and from the standard library. Each such call
stands behind one small function whose contract is believed rather than proved, and
whose doc comment says what is claimed of it. Of the clock and of random bytes nothing
is claimed. These functions are in `bytes`, `clock`, `crypto`, `identity`, `ids` and
`text`.

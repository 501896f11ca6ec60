# rterm

The logic of a terminal and file transfer client for SSH, with its behaviour stated in contracts
and proved by Verus.

- `src/` is the library. It decides: which transfer starts next and from which byte, whether a
  host's key is trusted, how a user is logged in, what is sealed and with which key, what each
  message changes and what is to be done about it. What must hold of it beyond single functions
  stands in proof functions whose names begin with `law_`.
- `app/` does what the library asks for: files, the network, the system's fonts and appearance,
  the terminal's bytes. It needs a desktop (a window toolkit and a key ring) behind the `Desktop`
  trait of `app/program.rs`.
- `tests/` runs the library.

Where the library calls another crate (`aes-gcm`, `argon2`, `base64`, `chrono`, `dirs`, `rand`, `russh`,
`secrecy`, `sys-locale`, `toml`, `zeroize`) or a function of the standard library that has no
specification, the call stands behind one small function or `assume_specification` whose doc
comment says what is taken for granted.

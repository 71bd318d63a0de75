# nixfs

A FUSE filesystem in which the attributes of a Nix expression can be looked up.
A derivation appears as a link into the store and is built when the link is
first read; an attribute set appears as a directory. Attributes are not listed:
they are found by name. `name@unpacked` leads to the unpacked source of `name`.
Why a build failed can be read from the link as the extended attribute
`user.error`.

- `src/` decides: which names are attributes, what `nix` is asked, what its
  output means, what is remembered and for how long, and what each request is
  answered. All of it is verified with Verus. `src/laws.rs` states what holds
  of the whole.
- `app/` acts: it mounts the filesystem, runs `nix`, keeps the time and hands
  requests and answers on.
- `tests/` holds examples.

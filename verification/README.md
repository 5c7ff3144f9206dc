# clipsync

Verified core of a peer-to-peer clipboard synchronisation tool for local
networks. Devices announce themselves over UDP broadcast, pair by mutual
confirmation, and exchange clipboard text over TCP.

- `src/` is the library, verified with Verus: FNV-1a content hashing
  (`clipboard`), the bounded set of recent hashes that suppresses echoes
  (`tracker`), tables keyed by peer address (`table`), the decisions of the
  networking layer and the device table (`network`), the device identity and
  ports (`ident`), and what the window shows and asks for (`ui`).
- `app/` is the program: the egui window, the tokio sockets and tasks, the
  system clipboard and the JSON wire format. It does the I/O and hands what it
  read to the library.
- `tests/` exercises the library on concrete values.

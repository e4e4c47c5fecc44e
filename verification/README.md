# LiteBox

LiteBox is a library OS: it offers programs files, sockets, memory, futexes and other services of
an operating system, on top of a small interface to the platform that it runs on. This crate is its
core, written in [Verus](https://github.com/verus-lang/verus): what each function does is stated in
its contract, and proved.

## Layout

- `src/fs/`: file systems. A `Backend` holds files: in memory (`in_mem`), in a tar archive
  (`tar_ro`), or devices (`devices`). A `Composer` mounts backends at paths. `nine_p` speaks to a
  9P server.
- `src/net/`: the network. `socket_channel` decouples programs from network processing, `network`
  manages sockets and local ports on top of a TCP/IP stack.
- `src/event/`, `src/sync/`: waiting for events, futexes, readers-writer locks. What happens between
  threads is written down as state machines; whoever runs them performs their actions atomically.
- `src/mm/`, `src/linux/`: memory management, and the system calls for it.
- `src/lvbs/`: what a kernel hands over to be protected by a hypervisor.
- `src/userland/`: running as an ordinary process on Linux.
- `src/messages.rs`: the texts of errors.
- `src/loom_model.rs`: a platform to test against.
- `src/utilities/`: a list whose entries can be lent to others.
- `app/`: ordinary Rust around the library, which makes the system calls and runs the loops.

## What is trusted

Hash maps, ring buffers, the reading of tar archives, the TCP/IP stack and checks on addresses come
from other crates. Each function of theirs that the library calls stands behind an item marked
`external_body`, with a contract that its documentation explains. These contracts are believed, not
proved.

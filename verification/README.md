# file_sharing

A peer-to-peer file sharing service for a local network. Peers find each other by
mDNS, tell each other which files they have, and send each other files over streams.
A downloaded file is kept only if its SHA-256 digest is the one that its sender gives.

- `src/` is the library: what a peer says on the wire, how it answers, how it checks
  what it downloads, and how its command line behaves. Every function states what it
  does in a contract that Verus proves.
  - `header`, `messages`: what goes over the network.
  - `files`, `digest`, `download`: listing, sending, retrieving and judging files.
  - `peer`, `peer_map`, `address_book`: peers and where they were discovered.
  - `command_core`: what a peer does with commands and with events of the network.
  - `repl`, `text`: the command line.
  - `startup`: what the options of the program decide.
  - `std_items`: what is taken for granted of the standard library.
- `app/` is the program: network, disk and terminal.
- `tests/` runs the library on concrete values.

## Using it

In client mode the program has a command line:

- `whoami` - display the local peer id.
- `peers` - display the peers that have been discovered.
- `dial <peer_id>` - connect to a peer.
- `list` - list the local files.
- `list <peer_id>` - list the files of a peer.
- `get <peer_id> <file_name>` - download a file from a peer.
- `help` - display the commands.
- `quit` - leave.

With `--server` it only answers other peers.

## What is not proved

The outside functions that the library calls are described by contracts that are
taken for granted: the hasher of `sha2` in `digest`, the peer ids and multiaddresses
of `libp2p` in `peer`, and two functions of the standard library in `std_items`.

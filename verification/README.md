# lynxrdp_client

The client of LynxRDP, a remote desktop that is reached over SSH.

`src/` is the client's logic, verified with Verus: the protocol state of a
connection, the session window's event handling, the connection bar, keyboard
and clipboard rules, the SSH command lines, the connection manager, the
settings, and the relaying of SSH's prompts. Every public function states what
it returns or changes; the `law_` functions state what holds across several of
them.

`app/` is the program around it: sockets, threads, processes, files, windows
and floating point. It hands the library plain values and carries out what the
library decides.

`tests/` runs the library on concrete values.

Times are nanoseconds since the program started, paths are texts, and a
message of the wire format is `proto::Message`.

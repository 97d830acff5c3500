# broadcast

Run a command on the machine where `broadcast_server` listens and drive it from
the local terminal: `broadcast valgrind ./a.out`.

The library in `src/` is verified with Verus.

- `wire`: how values stand on the wire, and the calls into `bincode`
- `message`: requests, responses and messages of the client
- `protocol`: frames, and what is sent and received
- `failure`: what goes wrong in the server
- `path`: Windows paths as WSL mounts them
- `server`: what the server decides about a request
- `session`: a running command, from events to actions
- `keys`: keys of the terminal, and the bytes a program reads for them
- `client`: the request, and a running client, from events to actions
- `laws`: what holds of whole sessions, and of client and server together

`app/` holds the two programs: sockets, terminals and logging. Started under the
name `broadcast_server` it is the server, else the client.

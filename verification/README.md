# multiglass

Streams many shellglass terminal sessions through one local relay to an
upstream hub.

- `src/` is the verified library: the command-line grammar (`cli`), the
  configuration and state-file layout (`config`, `paths`), session identity
  (`identity`), the daemon's start/stop decisions and startup log
  (`daemon`), the relay's session book and registration decisions (`relay`),
  what `stream` sends (`stream`), the `status` report (`status`), and the
  text primitives they share (`text`).
- `app/` is the program around it: process, file, environment and network
  I/O, the shellglass hub and push connection, and the HTTP plumbing.
- `tests/` exercises the library.

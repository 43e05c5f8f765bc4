# weft

The verified core of WEFT OS, an operating system whose applications are
WebAssembly modules with HTML user interfaces.

`src/` is a Verus library; every function in it carries a contract that Verus
proves:

- `frame`, `messages`: the length-prefixed frames between the application
  daemon and the compositor, and the reassembly of frames from a byte stream.
- `appd`: the application daemon — its request protocol, the session
  registry, request dispatch, the supervisor's state machine, the launch
  commands of a session's processes, package image mounting and the saved
  session.
- `portal`: the file portal's path policy (lexical normalisation and
  component-wise prefixes) and request handling.
- `pack`, `store`: package validation and the package stores.
- `mount_helper`: the setuid mount helper's command line, device names and
  its mount/unmount sequence.
- `runtime`: the Wasm runtime host's command line and IPC line protocol.
- `compositor`, `shell`: the compositor's end of the daemon link and the
  shells' window state, port discovery and notifications.
- `path`, `text`, `lines`, `sort`: the string and path primitives these use.

`app/` is the ordinary Rust around the library: the programs' `main`
functions, sockets, processes, files and serialisation. `tests/` exercises
the library.

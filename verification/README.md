# ShareFlow

Share one keyboard and mouse across the machines of a local network. Push the cursor over the edge
of a screen, and the next machine takes over.

The library decides; the program around it acts. Every decision is a function on plain values with
a contract that Verus proves: which edge the cursor crosses and where it enters the next screen,
who has focus, what a message of a peer comes to, what a hook makes of an event. Time comes in as
an argument. What is to be done comes out as a list of actions.

| Module | What it decides |
|---|---|
| `engine` | focus, edge switches, connected peers, incoming files |
| `runtime` | forwarding of captured input, copy and paste, the hotkey, clipboard broadcasts |
| `session` | the handshake with a peer, its messages, the keepalive |
| `screen`, `scale` | the boundaries of the desktop, proportional mapping of positions |
| `config`, `commands`, `tray` | settings, neighbors, what the user asks for |
| `protocol`, `connection` | framing, and reassembling a byte stream |
| `clipboard`, `media`, `files` | clipboard changes, camera and sound, file transfers |
| `discovery`, `tls` | announcements, identities and certificate pinning |
| `input` | capture and injection on Windows, macOS and Linux |
| `paths`, `diag`, `hotkey`, `table`, `text` | the rest |

`app/` holds the network, the disk, the devices and the user interface, which reads commands and
writes events as lines of JSON. `tests/` runs the library on concrete values.

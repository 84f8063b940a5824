# telora

The logic of Telora, a speech-to-text assistant for Wayland desktops, as a
verified library.

- `src/` is the library. Every function states what it returns or changes, and
  Verus proves it. The laws that relate several functions are public proof
  functions beside them.
  - `paths`, `cache`, `env`, `secrets`, `socket_bind`: where sockets, models and
    keys are found, and how a socket is bound safely.
  - `daemon`: configuration, the socket protocol, the recording loop, the input
    device and the loading of models.
  - `gui`: the session, the clipboard round trip, shortcuts, the focused window
    and the cleaning of transcriptions.
  - `ctl`, `models`: the control client and the model listing.
  - `strings`, `unix_path`: text and Unix paths.
- `app/` is the program around it: arguments, files, sockets, the clipboard, the
  display, the input device and the speech engines. It performs what the library
  asks for and hands back what came of it.
- `tests/` runs the library on concrete values.

What happens outside the library is an event to it. Binding a socket, loading a
model and pasting a text are state machines: each phase names one operation, and
the outcome of the operation leads to the next phase.

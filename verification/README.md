# igm5000

The logic of a settings tool for the ISY IGM 5000 mouse, written in Verus: what
the tool sends to the mouse, how it reads the answers, and what it tells the user
are stated as contracts and proved.

- `src/` is the library. It does no I/O: the retry policy (`transport`) and the
  work of the device thread (`session`) are state machines that say what to do
  next and take what came of it. `profile`, `session_laws` and `device_laws` hold
  the properties that span several functions.
- `tests/` runs the library on concrete values.
- `app/` is the program around it: the hidraw node, polkit, the device thread and
  the Qt bridge, which needs a Qt installation and a C++ shell to drive it.

# pomodoro_sni

A pomodoro timer that shows the minutes left as a 16x16 icon on status bars
that speak the StatusNotifierItem protocol, with a dbusmenu context menu,
an interactive settings dialog and an outside start command.

- `src/` is the verified library: the value types and their texts, the
  digit bitmaps of the icon, the timer and its loop, the menu model and its
  controls, the configuration file format, the command line, and the state
  machines of the main loop, the audio loop and the settings dialog.
- `app/` is the program around it: it sends on the channels the commands
  that the library decides, and holds D-Bus (zbus), the sound device (rodio),
  the terminal dialog (dialoguer), files, threads and floating point
  volumes.
- `tests/` runs the library on concrete values.

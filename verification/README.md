# colorify

The verified core of Colorify, a Windows utility that applies colour
profiles (brightness, contrast, saturation, hue, gamma, temperature) to the
desktop.

- `src/` is the library, checked by Verus: the file name offered when a
  profile is exported, PowerShell quoting and the startup-shortcut scripts,
  reading the startup settings back from the shortcut, the MIME type and
  `data:` URL of a wallpaper image, the handling of the profile list, and the
  tray-menu and command-line decisions of the shell.
- `app/` is the Tauri desktop shell around it: windows, tray, dialogs, file
  and process I/O, the Windows display calls, and the floating-point colour
  matrices.
- `tests/` runs the library on concrete inputs.

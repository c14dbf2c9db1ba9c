# Borderless Gaming Desktop

Switches a Windows 11 desktop between a comfortable Desktop Mode and a
focused Gaming Mode: taskbar auto-hide, desktop icons, a black wallpaper,
minimized windows and a per-mode resolution of the primary display.

The library in `src/` holds the logic, each function with a contract that
Verus proves:

- `actions`: which desktop actions a mode change runs, in what order, and
  the report of their outcomes; the taskbar's auto-hide bit.
- `display`, `picker`, `profile`: primary-display resolutions, the Desktop
  and Gaming profiles, and the steps of a resolution change.
- `login`: the login command line and the window opacity.
- `mode`, `mode_switch`, `playback`: the texts shown for each mode, the
  decisions around a press of the mode button, and the cue played when the
  mode changes.
- `window`: closing to the tray, the tray icon's commands, and picking a
  resolution profile.
- `q15`, `sine`, `loudness`, `cue`, `wav`, `text`: integer synthesis of the
  sound cues into WAVE files, and decimal text.
- `tasks`: the Cargo invocation that runs the application, the icon-master
  checks, the visible-artwork box and the ICO file.

`app/` is the command-line program around it: the Windows calls, file
output, and the tray and wordmark artwork, which is computed in floating
point. The application window and the tray icon themselves are not part of
this crate: the library holds their decisions (`window`, `mode`,
`mode_switch`, `picker`), but nothing here draws a window or puts an icon in
the tray.

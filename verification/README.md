# gnome-randr

A command-line tool to query and change displays on GNOME Wayland through
Mutter's `org.gnome.Mutter.DisplayConfig` D-Bus interface: modes, refresh
rates, scales, rotation and reflection, placement, mirroring, the primary
monitor, color modes, software brightness and gamma, native power-save,
backlight and luminance controls, and saved layouts.

## Layout

- `src/` is the library, verified with Verus: option rules and conflicts,
  mode, scale, color-mode and clone resolution, the layout planner, saved
  profiles, the saved software-color state and its text format, shell
  completion, `monitors.xml` rendering, the text views of `query`, and the
  messages of every error. Each public function states its result in its
  contract; the laws that relate several functions are public proof
  functions.
- `app/` is the program around it: the command line, the D-Bus calls, files,
  and the arithmetic and formatting of floating-point values (scales, refresh
  rates, gamma ramps), which the library receives as bit patterns or text.
- `tests/` exercise the library on concrete values.

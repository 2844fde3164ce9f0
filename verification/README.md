# traffic-monitor

A floating desktop monitor of network speed, CPU, memory and GPU usage.

- `src/` is the verified library (Verus): byte-count formatting, per-adapter
  traffic accounting, bounded histories, CPU sensor selection, the panel's
  rows and height steps, the tray menu and icon, the options dialog's state
  machine, and the date format.
- `app/` is the program around it: the egui/eframe window, sysinfo and NVML
  readings, the local date (clock and time zone), the tray icon, the JSON
  configuration file, and whatever works in floating point.
- `tests/` runs the library on concrete values.
